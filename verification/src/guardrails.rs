//! Two safety nets against a runaway client, both asked before any provider is called.
//!
//! [`LoopGuard`] flags a client that sends the same prompt over and over within a short window.
//! [`SpendGuard`] is a hard ceiling on what a client spends within a window, whatever the reason. A
//! caller asks before a call and records the cost after it; or, where calls of one client may overlap,
//! reserves the estimated cost in the step that checks it, and adjusts or releases it once the real
//! cost is known.
//!
//! Money is counted in micro-cents, millionths of a US cent.

use crate::clock::{Clock, Span, age, elapsed_since, seconds};
use crate::money::{MICROS_PER_CENT, cents};
use dashmap::DashMap;
use std::collections::hash_map::DefaultHasher;
use std::collections::VecDeque;
use std::hash::{Hash, Hasher};
use std::time::Instant;
use vstd::prelude::*;
use vstd::std_specs::hash::DefaultHasherAdditionalSpecFns;

verus! {

/// `dashmap::DashMap`, a concurrent hash map.
#[verifier::external_type_specification]
#[verifier::external_body]
#[verifier::reject_recursive_types(K)]
#[verifier::reject_recursive_types(V)]
#[verifier::reject_recursive_types(S)]
pub struct ExDashMap<K, V, S>(dashmap::DashMap<K, V, S>);

// The loop guard.

/// How often a prompt may come within the window before it counts as a loop, by default.
pub const DEFAULT_LOOP_REPEAT_THRESHOLD: usize = 4;

/// The loop guard's window by default, in seconds.
pub const DEFAULT_LOOP_WINDOW_SECS: u64 = 60;

/// How many calls are remembered of one client, so that a chatty client cannot grow the history
/// without bound.
pub const MAX_HISTORY_PER_CLIENT: usize = 200;

/// One remembered call: the hash of its prompt and when it came.
#[derive(Debug, Clone, Copy)]
pub struct Mark {
    pub hash: u64,
    pub at: u128,
}

/// What a map of histories holds: the remembered calls of each client, the oldest first.
pub uninterp spec fn histories(m: DashMap<String, VecDeque<Mark>>) -> Map<Seq<char>, Seq<Mark>>;

/// `DashMap::new` is an empty map.
#[verifier::external_body]
fn histories_new() -> (m: DashMap<String, VecDeque<Mark>>)
    ensures
        (histories(m) == Map::<Seq<char>, Seq<Mark>>::empty()),
{
    DashMap::new()
}

/// `DashMap::remove` takes an entry out of the map and returns it, if there is one. The map is
/// borrowed mutably, so no other reference into it is alive.
#[verifier::external_body]
fn histories_remove(m: &mut DashMap<String, VecDeque<Mark>>, client: &str) -> (r: Option<
    VecDeque<Mark>,
>)
    ensures
        histories(*final(m)) == histories(*old(m)).remove(client@),
        r is Some <==> histories(*old(m)).dom().contains(client@),
        r matches Some(h) ==> h@ == histories(*old(m))[client@],
{
    m.remove(client).map(|entry| entry.1)
}

/// `DashMap::insert` sets an entry of the map, whatever it was. The map is borrowed mutably, so no
/// other reference into it is alive.
#[verifier::external_body]
fn histories_insert(m: &mut DashMap<String, VecDeque<Mark>>, client: &str, h: VecDeque<Mark>)
    ensures
        histories(*final(m)) == histories(*old(m)).insert(client@, h@),
{
    m.insert(client.to_string(), h);
}

/// What `str`'s `Hash::hash` writes into a hasher.
pub uninterp spec fn text_writes(s: Seq<char>) -> Seq<Seq<u8>>;

/// `str`'s `Hash::hash` writes into the hasher what depends on the string alone.
#[verifier::external_body]
fn write_text(hasher: &mut DefaultHasher, s: &str)
    ensures
        final(hasher)@ == old(hasher)@ + text_writes(s@),
{
    s.hash(hasher);
}

/// The hash of a prompt: what a fresh hasher that was given the prompt finishes with.
pub open spec fn prompt_hash(prompt: Seq<char>) -> u64 {
    DefaultHasher::spec_finish(text_writes(prompt))
}

/// The hash of a prompt. Equal prompts have equal hashes.
pub fn hash_prompt(prompt: &str) -> (h: u64)
    ensures
        h == prompt_hash(prompt@),
{
    let mut hasher = DefaultHasher::new();
    write_text(&mut hasher, prompt);
    assert(hasher@ == text_writes(prompt@));
    hasher.finish()
}

/// A history without the calls at its front that are older than the window.
pub open spec fn kept(h: Seq<Mark>, now: u128, window: nat) -> Seq<Mark>
    decreases h.len(),
{
    if h.len() > 0 && age(now, h[0].at) > window {
        kept(h.drop_first(), now, window)
    } else {
        h
    }
}

/// How many calls of a history have this hash.
pub open spec fn repeats(h: Seq<Mark>, hash: u64) -> nat
    decreases h.len(),
{
    if h.len() == 0 {
        0
    } else {
        repeats(h.drop_last(), hash) + if h.last().hash == hash {
            1nat
        } else {
            0nat
        }
    }
}

/// A history with one more call, held to its bound by dropping the oldest.
pub open spec fn remembered(h: Seq<Mark>, call: Mark) -> Seq<Mark> {
    if h.len() + 1 > MAX_HISTORY_PER_CLIENT {
        h.push(call).drop_first()
    } else {
        h.push(call)
    }
}

/// The history after a call.
pub open spec fn recorded(h: Seq<Mark>, call: Mark, window: nat) -> Seq<Mark> {
    remembered(kept(h, call.at, window), call)
}

/// Whether a call looks like a loop: counting itself, its prompt has come `threshold` times or more
/// within the window.
pub open spec fn looping(h: Seq<Mark>, call: Mark, window: nat, threshold: nat) -> bool {
    repeats(kept(h, call.at, window), call.hash) + 1 >= threshold
}

/// What a guard remembers of a client: nothing, if it has not seen it.
pub open spec fn history_of(m: Map<Seq<char>, Seq<Mark>>, client: Seq<char>) -> Seq<Mark> {
    if m.dom().contains(client) {
        m[client]
    } else {
        seq![]
    }
}

/// Flags a client that repeats itself.
pub struct LoopGuard {
    recent: DashMap<String, VecDeque<Mark>>,
    threshold: usize,
    window: Span,
    clock: Clock,
}

impl View for LoopGuard {
    type V = Map<Seq<char>, Seq<Mark>>;

    /// The remembered calls of each client, the oldest first.
    closed spec fn view(&self) -> Map<Seq<char>, Seq<Mark>> {
        histories(self.recent)
    }
}

impl LoopGuard {
    /// The clock on which the guard counts time.
    pub closed spec fn clock(&self) -> Clock {
        self.clock
    }

    /// How often a prompt must come to count as a loop.
    pub closed spec fn threshold(&self) -> nat {
        self.threshold as nat
    }

    /// The length of the window in nanoseconds.
    pub closed spec fn window(&self) -> nat {
        self.window.nanos as nat
    }

    /// No history is longer than its bound.
    pub open spec fn wf(&self) -> bool {
        forall|c: Seq<char>| #[trigger]
            self@.dom().contains(c) ==> self@[c].len() <= MAX_HISTORY_PER_CLIENT
    }

    /// A guard with the default threshold and window.
    pub fn new() -> (g: LoopGuard)
        ensures
            g.wf(),
            g@.is_empty(),
            g.threshold() == DEFAULT_LOOP_REPEAT_THRESHOLD,
            g.window() == seconds(DEFAULT_LOOP_WINDOW_SECS as nat),
    {
        LoopGuard::with_config(
            DEFAULT_LOOP_REPEAT_THRESHOLD,
            Span::from_secs(DEFAULT_LOOP_WINDOW_SECS),
        )
    }

    /// A guard with the given threshold and window.
    pub fn with_config(threshold: usize, window: Span) -> (g: LoopGuard)
        ensures
            g.wf(),
            g@.is_empty(),
            g.threshold() == threshold,
            g.window() == window.nanos,
    {
        LoopGuard { recent: histories_new(), threshold, window, clock: Clock::start() }
    }

    /// Records a call that comes at time `now`, and returns whether it looks like a loop.
    pub fn check_and_record_at(&mut self, client_id: &str, prompt: &str, now: u128) -> (is_loop:
        bool)
        requires
            old(self).wf(),
        ensures
            final(self).wf(),
            final(self).threshold() == old(self).threshold(),
            final(self).window() == old(self).window(),
            final(self).clock() == old(self).clock(),
            is_loop == looping(
                history_of(old(self)@, client_id@),
                Mark { hash: prompt_hash(prompt@), at: now },
                old(self).window(),
                old(self).threshold(),
            ),
            final(self)@ == old(self)@.insert(
                client_id@,
                recorded(
                    history_of(old(self)@, client_id@),
                    Mark { hash: prompt_hash(prompt@), at: now },
                    old(self).window(),
                ),
            ),
    {
        let hash = hash_prompt(prompt);
        let ghost h0 = history_of(self@, client_id@);
        let ghost window = self.window();
        let mut entry = match histories_remove(&mut self.recent, client_id) {
            Some(h) => h,
            None => VecDeque::new(),
        };
        assert(entry@ == h0);
        while entry.len() > 0 && elapsed_since(now, entry[0].at) > self.window.nanos
            invariant
                window == self.window.nanos,
                kept(entry@, now, window) == kept(h0, now, window),
                entry@.len() <= h0.len(),
            decreases entry@.len(),
        {
            let ghost before = entry@;
            let _ = entry.pop_front();
            assert(entry@ == before.drop_first());
        }
        let ghost h = entry@;
        assert(h == kept(h0, now, window));
        let mut count: usize = 0;
        let mut i: usize = 0;
        while i < entry.len()
            invariant
                entry@ == h,
                i <= h.len() <= MAX_HISTORY_PER_CLIENT,
                count <= i,
                count == repeats(h.take(i as int), hash),
            decreases h.len() - i,
        {
            assert(h.take(i + 1).drop_last() == h.take(i as int));
            if entry[i].hash == hash {
                count = count + 1;
            }
            i = i + 1;
        }
        assert(h.take(h.len() as int) == h);
        entry.push_back(Mark { hash, at: now });
        if entry.len() > MAX_HISTORY_PER_CLIENT {
            let ghost before = entry@;
            let _ = entry.pop_front();
            assert(entry@ == before.drop_first());
        }
        histories_insert(&mut self.recent, client_id, entry);
        assert(self@ == old(self)@.insert(client_id@, entry@));
        count + 1 >= self.threshold
    }

    /// Records a call and returns whether it looks like a loop: the same prompt has now come
    /// `threshold` times or more from this client within the window.
    pub fn check_and_record(&mut self, client_id: &str, prompt: &str) -> (is_loop: bool)
        requires
            old(self).wf(),
        ensures
            final(self).wf(),
            final(self).threshold() == old(self).threshold(),
            final(self).window() == old(self).window(),
            final(self).clock() == old(self).clock(),
            exists|reading: Instant|
                {
                    let call = Mark {
                        hash: prompt_hash(prompt@),
                        at: #[trigger] old(self).clock().time_at(reading),
                    };
                    let history = history_of(old(self)@, client_id@);
                    &&& is_loop == looping(
                        history,
                        call,
                        old(self).window(),
                        old(self).threshold(),
                    )
                    &&& final(self)@ == old(self)@.insert(
                        client_id@,
                        recorded(history, call, old(self).window()),
                    )
                },
    {
        let now: u128 = self.clock.now();
        self.check_and_record_at(client_id, prompt, now)
    }
}

impl Default for LoopGuard {
    fn default() -> (g: LoopGuard)
        ensures
            g.wf(),
            g@.is_empty(),
            g.threshold() == DEFAULT_LOOP_REPEAT_THRESHOLD,
            g.window() == seconds(DEFAULT_LOOP_WINDOW_SECS as nat),
    {
        LoopGuard::new()
    }
}

/// The history after a run of calls of one client.
pub open spec fn after_calls(calls: Seq<Mark>, window: nat) -> Seq<Mark>
    decreases calls.len(),
{
    if calls.len() == 0 {
        seq![]
    } else {
        recorded(after_calls(calls.drop_last(), window), calls.last(), window)
    }
}

/// How many calls have this hash and came no longer than the window before `now`.
pub open spec fn recent_repeats(calls: Seq<Mark>, hash: u64, now: u128, window: nat) -> nat
    decreases calls.len(),
{
    if calls.len() == 0 {
        0
    } else {
        recent_repeats(calls.drop_last(), hash, now, window) + if calls.last().hash == hash && age(
            now,
            calls.last().at,
        ) <= window {
            1nat
        } else {
            0nat
        }
    }
}

/// The calls come in the order of their times.
pub open spec fn in_order(calls: Seq<Mark>) -> bool {
    forall|i: int, j: int| 0 <= i <= j < calls.len() ==> calls[i].at <= calls[j].at
}

/// How many of the calls are older than the window at time `now`, counted from the front.
spec fn stale(calls: Seq<Mark>, now: u128, window: nat) -> nat
    decreases calls.len(),
{
    if calls.len() > 0 && age(now, calls[0].at) > window {
        1 + stale(calls.drop_first(), now, window)
    } else {
        0
    }
}

proof fn lemma_kept(calls: Seq<Mark>, now: u128, window: nat)
    requires
        in_order(calls),
    ensures
        stale(calls, now, window) <= calls.len(),
        kept(calls, now, window) == calls.skip(stale(calls, now, window) as int),
        forall|i: int|
            0 <= i < stale(calls, now, window) ==> age(now, #[trigger] calls[i].at) > window,
        forall|i: int|
            stale(calls, now, window) <= i < calls.len() ==> age(now, #[trigger] calls[i].at)
                <= window,
    decreases calls.len(),
{
    if calls.len() > 0 && age(now, calls[0].at) > window {
        let rest = calls.drop_first();
        lemma_kept(rest, now, window);
        let k = stale(rest, now, window) as int;
        assert(rest.skip(k) == calls.skip(k + 1));
        assert forall|i: int| 0 <= i < k + 1 implies age(now, #[trigger] calls[i].at) > window by {
            if i > 0 {
                assert(calls[i] == rest[i - 1]);
            }
        }
        assert forall|i: int| k + 1 <= i < calls.len() implies age(now, #[trigger] calls[i].at)
            <= window by {
            assert(calls[i] == rest[i - 1]);
        }
    } else {
        assert(calls.skip(0) == calls);
    }
}

/// What is remembered of calls in order: those of the window of the last, as far as they fit.
spec fn forgotten(calls: Seq<Mark>, window: nat) -> int {
    let old_calls = stale(calls, calls.last().at, window) as int;
    let excess = calls.len() - MAX_HISTORY_PER_CLIENT;
    if old_calls >= excess {
        old_calls
    } else {
        excess
    }
}

/// Dropping what is stale from the tail of a history drops as far as in the whole, or nothing.
proof fn lemma_kept_of_tail(calls: Seq<Mark>, k: int, now: u128, window: nat)
    requires
        in_order(calls),
        0 <= k <= calls.len(),
    ensures
        kept(calls.skip(k), now, window) == calls.skip(
            if stale(calls, now, window) >= k {
                stale(calls, now, window) as int
            } else {
                k
            },
        ),
{
    let tail = calls.skip(k);
    assert(in_order(tail));
    lemma_kept(calls, now, window);
    lemma_kept(tail, now, window);
    let a = stale(calls, now, window) as int;
    let b = stale(tail, now, window) as int;
    assert forall|i: int| 0 <= i < tail.len() implies tail[i] == calls[i + k] by {}
    if a >= k {
        if b < a - k {
            assert(age(now, calls[b + k].at) > window);
            assert(age(now, tail[b].at) <= window);
        }
        if b > a - k {
            assert(age(now, tail[a - k].at) > window);
            assert(age(now, calls[a].at) <= window);
        }
        assert(tail.skip(b) == calls.skip(a));
    } else {
        if b > 0 {
            assert(age(now, tail[0].at) > window);
            assert(age(now, calls[k].at) <= window);
        }
        assert(tail.skip(0) == tail);
    }
}

/// The same calls are stale whether or not the call of the moment is counted with them.
proof fn lemma_stale_push(calls: Seq<Mark>, window: nat)
    requires
        in_order(calls),
        calls.len() > 0,
    ensures
        stale(calls.drop_last(), calls.last().at, window) == stale(calls, calls.last().at, window),
        stale(calls, calls.last().at, window) < calls.len(),
{
    let before = calls.drop_last();
    let now = calls.last().at;
    assert(in_order(before));
    lemma_kept(before, now, window);
    lemma_kept(calls, now, window);
    let a = stale(before, now, window) as int;
    let b = stale(calls, now, window) as int;
    assert(age(now, calls[calls.len() - 1].at) == 0);
    if b == calls.len() {
        assert(age(now, calls[calls.len() - 1].at) > window);
    }
    if a < b {
        assert(age(now, calls[a].at) > window);
        assert(calls[a] == before[a]);
    }
    if b < a {
        assert(age(now, before[b].at) > window);
        assert(calls[b] == before[b]);
    }
}

/// What is stale stays so.
proof fn lemma_stale_grows(calls: Seq<Mark>, now: u128, later: u128, window: nat)
    requires
        in_order(calls),
        now <= later,
    ensures
        stale(calls, now, window) <= stale(calls, later, window),
{
    lemma_kept(calls, now, window);
    lemma_kept(calls, later, window);
    let a = stale(calls, now, window) as int;
    let b = stale(calls, later, window) as int;
    if b < a {
        assert(age(now, calls[b].at) > window);
        assert(age(later, calls[b].at) <= window);
    }
}

proof fn lemma_after_calls(calls: Seq<Mark>, window: nat)
    requires
        in_order(calls),
        calls.len() > 0,
    ensures
        0 <= forgotten(calls, window) < calls.len(),
        after_calls(calls, window) == calls.skip(forgotten(calls, window)),
    decreases calls.len(),
{
    let before = calls.drop_last();
    let now = calls.last().at;
    let n = calls.len() as int;
    assert(in_order(before));
    lemma_stale_push(calls, window);
    let h = after_calls(before, window);
    let m = if before.len() == 0 {
        0
    } else {
        forgotten(before, window)
    };
    if before.len() > 0 {
        lemma_after_calls(before, window);
        assert(before.last() == calls[n - 2]);
        lemma_stale_grows(before, before.last().at, now, window);
    }
    assert(h == before.skip(m));
    lemma_kept_of_tail(before, m, now, window);
    let stale_now = stale(calls, now, window) as int;
    let k = if stale_now >= m {
        stale_now
    } else {
        m
    };
    assert(kept(h, now, window) == before.skip(k));
    assert(before.skip(k).push(calls.last()) == calls.skip(k));
    if n - k > MAX_HISTORY_PER_CLIENT {
        assert(calls.skip(k).drop_first() == calls.skip(k + 1));
    }
}

proof fn lemma_recent_repeats(calls: Seq<Mark>, k: int, hash: u64, now: u128, window: nat)
    requires
        0 <= k <= calls.len(),
        forall|i: int| 0 <= i < k ==> age(now, #[trigger] calls[i].at) > window,
        forall|i: int| k <= i < calls.len() ==> age(now, #[trigger] calls[i].at) <= window,
    ensures
        recent_repeats(calls, hash, now, window) == repeats(calls.skip(k), hash),
    decreases calls.len(),
{
    if calls.len() > 0 {
        let before = calls.drop_last();
        assert(calls.last() == calls[calls.len() - 1]);
        assert forall|i: int| 0 <= i < before.len() implies before[i] == calls[i] by {}
        if k == calls.len() {
            lemma_recent_repeats(before, k - 1, hash, now, window);
            assert(age(now, calls[k - 1].at) > window);
            assert(before.skip(k - 1) == calls.skip(k));
        } else {
            lemma_recent_repeats(before, k, hash, now, window);
            assert(calls.skip(k).drop_last() == before.skip(k));
        }
    } else {
        assert(calls.skip(k) == calls);
    }
}

/// The last calls of a run: the call of the moment and as many before it as are remembered at most.
pub open spec fn last_calls(calls: Seq<Mark>) -> Seq<Mark> {
    if calls.len() > MAX_HISTORY_PER_CLIENT + 1 {
        calls.skip(calls.len() - MAX_HISTORY_PER_CLIENT - 1)
    } else {
        calls
    }
}

/// How many calls came no longer than the window before `now`.
pub open spec fn recent_calls(calls: Seq<Mark>, now: u128, window: nat) -> nat
    decreases calls.len(),
{
    if calls.len() == 0 {
        0
    } else {
        recent_calls(calls.drop_last(), now, window) + if age(now, calls.last().at) <= window {
            1nat
        } else {
            0nat
        }
    }
}

proof fn lemma_recent_calls(calls: Seq<Mark>, k: int, now: u128, window: nat)
    requires
        0 <= k <= calls.len(),
        forall|i: int| 0 <= i < k ==> age(now, #[trigger] calls[i].at) > window,
        forall|i: int| k <= i < calls.len() ==> age(now, #[trigger] calls[i].at) <= window,
    ensures
        recent_calls(calls, now, window) == calls.len() - k,
    decreases calls.len(),
{
    if calls.len() > 0 {
        let before = calls.drop_last();
        assert(calls.last() == calls[calls.len() - 1]);
        assert forall|i: int| 0 <= i < before.len() implies before[i] == calls[i] by {}
        lemma_recent_calls(
            before,
            if k == calls.len() {
                k - 1
            } else {
                k
            },
            now,
            window,
        );
    }
}

/// A call looks like a loop exactly if, counting itself, a prompt of the same hash has come
/// `threshold` times or more within the window, among the calls that are remembered of its client.
pub proof fn law_loop_counts_what_is_remembered(calls: Seq<Mark>, window: nat, threshold: nat)
    requires
        in_order(calls),
        calls.len() > 0,
    ensures
        looping(after_calls(calls.drop_last(), window), calls.last(), window, threshold)
            <==> recent_repeats(last_calls(calls), calls.last().hash, calls.last().at, window)
            >= threshold,
{
    let before = calls.drop_last();
    let now = calls.last().at;
    let hash = calls.last().hash;
    let n = calls.len() as int;
    assert(in_order(before));
    let m = if before.len() == 0 {
        0
    } else {
        forgotten(before, window)
    };
    if before.len() > 0 {
        lemma_after_calls(before, window);
        assert(before.last() == calls[n - 2]);
        lemma_stale_grows(before, before.last().at, now, window);
    }
    assert(after_calls(before, window) == before.skip(m));
    lemma_kept_of_tail(before, m, now, window);
    let excess = if n > MAX_HISTORY_PER_CLIENT + 1 {
        n - MAX_HISTORY_PER_CLIENT - 1
    } else {
        0
    };
    let last = last_calls(calls);
    assert(last == calls.skip(excess));
    let earlier = last.drop_last();
    assert(earlier == before.skip(excess));
    assert(in_order(earlier));
    lemma_kept_of_tail(before, excess, now, window);
    assert(kept(before.skip(m), now, window) == kept(earlier, now, window));
    lemma_kept(earlier, now, window);
    lemma_recent_repeats(earlier, stale(earlier, now, window) as int, hash, now, window);
    assert(last.last() == calls.last());
}

/// A call looks like a loop exactly if, counting itself, its client has sent a prompt of the same
/// hash `threshold` times or more within the window; as long as the client's calls within the window
/// fit into the history, however many it has made before.
pub proof fn law_loop_counts_the_window(calls: Seq<Mark>, window: nat, threshold: nat)
    requires
        in_order(calls),
        calls.len() > 0,
        recent_calls(calls.drop_last(), calls.last().at, window) <= MAX_HISTORY_PER_CLIENT,
    ensures
        looping(after_calls(calls.drop_last(), window), calls.last(), window, threshold)
            <==> recent_repeats(calls, calls.last().hash, calls.last().at, window) >= threshold,
{
    let before = calls.drop_last();
    let now = calls.last().at;
    let hash = calls.last().hash;
    let n = calls.len() as int;
    assert(in_order(before));
    law_loop_counts_what_is_remembered(calls, window, threshold);
    lemma_kept(before, now, window);
    let k = stale(before, now, window) as int;
    lemma_recent_calls(before, k, now, window);
    lemma_recent_repeats(before, k, hash, now, window);
    let excess = if n > MAX_HISTORY_PER_CLIENT + 1 {
        n - MAX_HISTORY_PER_CLIENT - 1
    } else {
        0
    };
    let last = last_calls(calls);
    assert(last == calls.skip(excess));
    let earlier = last.drop_last();
    assert(earlier == before.skip(excess));
    assert(k >= excess);
    assert forall|i: int| 0 <= i < earlier.len() implies earlier[i] == before[i + excess] by {}
    lemma_recent_repeats(earlier, k - excess, hash, now, window);
    assert(earlier.skip(k - excess) == before.skip(k));
    assert(last.last() == calls.last());
}

/// A run of calls with one and the same prompt, all within the window, looks like a loop from the
/// call on that makes up the threshold, and not before; however long the run, if the threshold is
/// one that the history can tell.
pub proof fn law_identical_prompts_trip_at_the_threshold(
    calls: Seq<Mark>,
    prompt: Seq<char>,
    window: nat,
    threshold: nat,
)
    requires
        in_order(calls),
        calls.len() > 0,
        threshold <= MAX_HISTORY_PER_CLIENT + 1,
        forall|i: int| 0 <= i < calls.len() ==> (#[trigger] calls[i]).hash == prompt_hash(prompt),
        age(calls.last().at, calls[0].at) <= window,
    ensures
        looping(after_calls(calls.drop_last(), window), calls.last(), window, threshold)
            <==> calls.len() >= threshold,
{
    law_loop_counts_what_is_remembered(calls, window, threshold);
    let last = last_calls(calls);
    let excess = calls.len() - last.len();
    assert forall|i: int| 0 <= i < last.len() implies last[i] == calls[i + excess] by {}
    assert(calls[0].at <= calls[excess].at);
    lemma_all_recent(last, prompt_hash(prompt), calls.last().at, window);
}

proof fn lemma_all_recent(calls: Seq<Mark>, hash: u64, now: u128, window: nat)
    requires
        in_order(calls),
        forall|i: int| 0 <= i < calls.len() ==> (#[trigger] calls[i]).hash == hash,
        calls.len() > 0 ==> age(now, calls[0].at) <= window,
    ensures
        recent_repeats(calls, hash, now, window) == calls.len(),
    decreases calls.len(),
{
    if calls.len() > 0 {
        assert(calls.last() == calls[calls.len() - 1]);
        assert(calls[0].at <= calls.last().at);
        let before = calls.drop_last();
        assert forall|i: int| 0 <= i < before.len() implies (#[trigger] before[i]).hash == hash by {
            assert(before[i] == calls[i]);
        }
        lemma_all_recent(before, hash, now, window);
    }
}

/// However a client calls, no more than the bound is remembered of it.
pub proof fn law_history_is_bounded(calls: Seq<Mark>, window: nat)
    ensures
        after_calls(calls, window).len() <= MAX_HISTORY_PER_CLIENT,
    decreases calls.len(),
{
    if calls.len() > 0 {
        law_history_is_bounded(calls.drop_last(), window);
        lemma_kept_len(after_calls(calls.drop_last(), window), calls.last().at, window);
    }
}

proof fn lemma_kept_len(h: Seq<Mark>, now: u128, window: nat)
    ensures
        kept(h, now, window).len() <= h.len(),
    decreases h.len(),
{
    if h.len() > 0 && age(now, h[0].at) > window {
        lemma_kept_len(h.drop_first(), now, window);
    }
}

// The spend guard.

/// The ceiling per client and window by default, in cents.
pub const DEFAULT_MAX_CENTS_PER_WINDOW: u64 = 5_000;

/// The spend guard's window by default, in seconds.
pub const DEFAULT_SPEND_WINDOW_SECS: u64 = 3_600;

/// What a client has spent or reserved, and when its window started.
#[derive(Debug, Clone, Copy)]
pub struct SpendWindow {
    /// In micro-cents.
    pub spent: u128,
    pub started: u128,
}

/// What a map of windows holds: the window of each client.
pub uninterp spec fn windows(m: DashMap<String, SpendWindow>) -> Map<Seq<char>, SpendWindow>;

/// `DashMap::new` is an empty map.
#[verifier::external_body]
fn windows_new() -> (m: DashMap<String, SpendWindow>)
    ensures
        (windows(m) == Map::<Seq<char>, SpendWindow>::empty()),
{
    DashMap::new()
}

/// `DashMap::get` reads an entry of the map, if there is one.
#[verifier::external_body]
fn windows_get(m: &DashMap<String, SpendWindow>, client: &str) -> (r: Option<SpendWindow>)
    ensures
        r is Some <==> windows(*m).dom().contains(client@),
        r matches Some(w) ==> w == windows(*m)[client@],
{
    m.get(client).map(|entry| *entry)
}

/// `DashMap::insert` sets an entry of the map, whatever it was. The map is borrowed mutably, so no
/// other reference into it is alive.
#[verifier::external_body]
fn windows_insert(m: &mut DashMap<String, SpendWindow>, client: &str, w: SpendWindow)
    ensures
        windows(*final(m)) == windows(*old(m)).insert(client@, w),
{
    m.insert(client.to_string(), w);
}

/// The smaller of a sum and the greatest amount that can be counted.
pub open spec fn capped_sum(a: nat, b: nat) -> u128 {
    if a + b <= u128::MAX {
        (a + b) as u128
    } else {
        u128::MAX
    }
}

/// A client's window at time `now`, before it is started anew where it has run out: a fresh one, if
/// the client has none.
pub open spec fn window_of(
    m: Map<Seq<char>, SpendWindow>,
    client: Seq<char>,
    now: u128,
) -> SpendWindow {
    if m.dom().contains(client) {
        m[client]
    } else {
        SpendWindow { spent: 0, started: now }
    }
}

/// Whether a window has run out at time `now`.
pub open spec fn rolled_over(w: SpendWindow, now: u128, length: nat) -> bool {
    age(now, w.started) > length
}

/// The window in force at time `now`: one that has run out starts anew with nothing spent.
pub open spec fn current(w: SpendWindow, now: u128, length: nat) -> SpendWindow {
    if rolled_over(w, now, length) {
        SpendWindow { spent: 0, started: now }
    } else {
        w
    }
}

/// Whether a client is under its ceiling at time `now`: it has no window, its window has run out, or
/// it has spent less than the ceiling.
pub open spec fn under_ceiling(
    m: Map<Seq<char>, SpendWindow>,
    client: Seq<char>,
    now: u128,
    length: nat,
    max: u128,
) -> bool {
    m.dom().contains(client) ==> rolled_over(m[client], now, length) || m[client].spent < max
}

/// Whether an amount fits under the ceiling on top of what is spent.
pub open spec fn fits(w: SpendWindow, amount: u128, max: u128) -> bool {
    w.spent + amount <= max
}

/// The window after an attempt to reserve an amount: with the amount if it fits, without if not.
pub open spec fn reserved(
    w: SpendWindow,
    amount: u128,
    now: u128,
    length: nat,
    max: u128,
) -> SpendWindow {
    let c = current(w, now, length);
    if fits(c, amount, max) {
        SpendWindow { spent: (c.spent + amount) as u128, ..c }
    } else {
        c
    }
}

/// The window after a reservation of `estimate` has been adjusted to `actual`. It never falls below
/// zero.
pub open spec fn adjusted(w: SpendWindow, estimate: u128, actual: u128) -> SpendWindow {
    SpendWindow {
        spent: if w.spent + actual < estimate {
            0
        } else {
            capped_sum((w.spent + actual - estimate) as nat, 0)
        },
        ..w
    }
}

/// Caps what each client spends within a window.
pub struct SpendGuard {
    spent: DashMap<String, SpendWindow>,
    max_per_window: u128,
    window: Span,
    clock: Clock,
}

impl View for SpendGuard {
    type V = Map<Seq<char>, SpendWindow>;

    /// The window of each client.
    closed spec fn view(&self) -> Map<Seq<char>, SpendWindow> {
        windows(self.spent)
    }
}

impl SpendGuard {
    /// The clock on which the guard counts time.
    pub closed spec fn clock(&self) -> Clock {
        self.clock
    }

    /// The ceiling per client and window, in micro-cents.
    pub closed spec fn max(&self) -> u128 {
        self.max_per_window
    }

    /// The length of the window in nanoseconds.
    pub closed spec fn window(&self) -> nat {
        self.window.nanos as nat
    }

    /// The ceiling, the length of the window and the clock are those of another guard.
    pub open spec fn same_limits(&self, other: &SpendGuard) -> bool {
        self.max() == other.max() && self.window() == other.window() && self.clock()
            == other.clock()
    }

    /// A guard with the default ceiling and window.
    pub fn new() -> (g: SpendGuard)
        ensures
            g@.is_empty(),
            g.max() == DEFAULT_MAX_CENTS_PER_WINDOW * MICROS_PER_CENT,
            g.window() == seconds(DEFAULT_SPEND_WINDOW_SECS as nat),
    {
        SpendGuard::with_config(
            cents(DEFAULT_MAX_CENTS_PER_WINDOW),
            Span::from_secs(DEFAULT_SPEND_WINDOW_SECS),
        )
    }

    /// A guard with the given ceiling, in micro-cents, and window.
    pub fn with_config(max_per_window: u128, window: Span) -> (g: SpendGuard)
        ensures
            g@.is_empty(),
            g.max() == max_per_window,
            g.window() == window.nanos,
    {
        SpendGuard { spent: windows_new(), max_per_window, window, clock: Clock::start() }
    }

    fn window_or_fresh(&self, client_id: &str, now: u128) -> (w: SpendWindow)
        ensures
            w == window_of(self@, client_id@, now),
    {
        match windows_get(&self.spent, client_id) {
            Some(w) => w,
            None => SpendWindow { spent: 0, started: now },
        }
    }

    fn current_window(&self, client_id: &str, now: u128) -> (w: SpendWindow)
        ensures
            w == current(window_of(self@, client_id@, now), now, self.window()),
    {
        let w = self.window_or_fresh(client_id, now);
        if elapsed_since(now, w.started) > self.window.nanos {
            SpendWindow { spent: 0, started: now }
        } else {
            w
        }
    }

    /// Whether the client is under its ceiling at time `now`.
    pub fn check_at(&self, client_id: &str, now: u128) -> (r: bool)
        ensures
            r == under_ceiling(self@, client_id@, now, self.window(), self.max()),
    {
        match windows_get(&self.spent, client_id) {
            None => true,
            Some(w) => {
                if elapsed_since(now, w.started) > self.window.nanos {
                    true
                } else {
                    w.spent < self.max_per_window
                }
            },
        }
    }

    /// Whether the client is under its ceiling. Nothing is recorded, so callers that ask at the
    /// same time may all pass: new callers should reserve.
    pub fn check(&self, client_id: &str) -> (r: bool)
        ensures
            exists|reading: Instant|
                r == under_ceiling(
                    self@,
                    client_id@,
                    #[trigger] self.clock().time_at(reading),
                    self.window(),
                    self.max(),
                ),
    {
        assert(self.clock() == self.clock);
        let now: u128 = self.clock.now();
        self.check_at(client_id, now)
    }

    /// Adds a cost to what the client has spent, in a window that starts anew if it has run out.
    pub fn record_spend_at(&mut self, client_id: &str, cost: u128, now: u128)
        ensures
            final(self).same_limits(old(self)),
            final(self)@ == ({
                let c = current(window_of(old(self)@, client_id@, now), now, old(self).window());
                old(self)@.insert(
                    client_id@,
                    SpendWindow { spent: capped_sum(c.spent as nat, cost as nat), ..c },
                )
            }),
    {
        let c = self.current_window(client_id, now);
        let spent: u128 = c.spent.saturating_add(cost);
        windows_insert(&mut self.spent, client_id, SpendWindow { spent, started: c.started });
    }

    /// Adds a cost to what the client has spent.
    pub fn record_spend(&mut self, client_id: &str, cost: u128)
        ensures
            final(self).same_limits(old(self)),
            exists|reading: Instant|
                {
                    let now = #[trigger] old(self).clock().time_at(reading);
                    let c = current(
                        window_of(old(self)@, client_id@, now),
                        now,
                        old(self).window(),
                    );
                    final(self)@ == old(self)@.insert(
                        client_id@,
                        SpendWindow { spent: capped_sum(c.spent as nat, cost as nat), ..c },
                    )
                },
    {
        let now: u128 = self.clock.now();
        self.record_spend_at(client_id, cost, now)
    }

    /// Reserves an estimated cost at time `now`, if it fits under the ceiling. Returns whether it
    /// was reserved.
    pub fn try_reserve_at(&mut self, client_id: &str, estimate: u128, now: u128) -> (r: bool)
        ensures
            final(self).same_limits(old(self)),
            r == fits(
                current(window_of(old(self)@, client_id@, now), now, old(self).window()),
                estimate,
                old(self).max(),
            ),
            final(self)@ == old(self)@.insert(
                client_id@,
                reserved(
                    window_of(old(self)@, client_id@, now),
                    estimate,
                    now,
                    old(self).window(),
                    old(self).max(),
                ),
            ),
    {
        let c = self.current_window(client_id, now);
        if estimate > self.max_per_window || c.spent > self.max_per_window - estimate {
            windows_insert(&mut self.spent, client_id, c);
            return false;
        }
        windows_insert(
            &mut self.spent,
            client_id,
            SpendWindow { spent: c.spent + estimate, started: c.started },
        );
        true
    }

    /// Checks and reserves an estimated cost in one step. Returns `false`, reserving nothing, if
    /// the reservation would exceed the ceiling.
    pub fn try_reserve(&mut self, client_id: &str, estimate: u128) -> (r: bool)
        ensures
            final(self).same_limits(old(self)),
            exists|reading: Instant|
                {
                    let now = #[trigger] old(self).clock().time_at(reading);
                    &&& r == fits(
                        current(
                            window_of(old(self)@, client_id@, now),
                            now,
                            old(self).window(),
                        ),
                        estimate,
                        old(self).max(),
                    )
                    &&& final(self)@ == old(self)@.insert(
                        client_id@,
                        reserved(
                            window_of(old(self)@, client_id@, now),
                            estimate,
                            now,
                            old(self).window(),
                            old(self).max(),
                        ),
                    )
                },
    {
        let now: u128 = self.clock.now();
        self.try_reserve_at(client_id, estimate, now)
    }

    /// Adjusts a reservation to the real cost at time `now`. Where the two are equal nothing
    /// changes; otherwise the client's window is adjusted as it stands, even if it has run out.
    pub fn reconcile_at(&mut self, client_id: &str, estimate: u128, actual: u128, now: u128)
        ensures
            final(self).same_limits(old(self)),
            final(self)@ == if actual == estimate {
                old(self)@
            } else {
                old(self)@.insert(
                    client_id@,
                    adjusted(window_of(old(self)@, client_id@, now), estimate, actual),
                )
            },
    {
        if actual == estimate {
            return;
        }
        let w = self.window_or_fresh(client_id, now);
        let spent: u128 = if actual > estimate {
            w.spent.saturating_add(actual - estimate)
        } else {
            w.spent.saturating_sub(estimate - actual)
        };
        windows_insert(&mut self.spent, client_id, SpendWindow { spent, started: w.started });
    }

    /// Adjusts a reservation to the real cost once that is known.
    pub fn reconcile(&mut self, client_id: &str, estimate: u128, actual: u128)
        ensures
            final(self).same_limits(old(self)),
            exists|reading: Instant|
                {
                    let now = #[trigger] old(self).clock().time_at(reading);
                    final(self)@ == if actual == estimate {
                        old(self)@
                    } else {
                        old(self)@.insert(
                            client_id@,
                            adjusted(window_of(old(self)@, client_id@, now), estimate, actual),
                        )
                    }
                },
    {
        let now: u128 = self.clock.now();
        self.reconcile_at(client_id, estimate, actual, now)
    }

    /// Releases a reservation, for a call that never happened.
    pub fn release(&mut self, client_id: &str, estimate: u128)
        ensures
            final(self).same_limits(old(self)),
            exists|reading: Instant|
                {
                    let now = #[trigger] old(self).clock().time_at(reading);
                    final(self)@ == if estimate == 0 {
                        old(self)@
                    } else {
                        old(self)@.insert(
                            client_id@,
                            adjusted(window_of(old(self)@, client_id@, now), estimate, 0),
                        )
                    }
                },
    {
        let now: u128 = self.clock.now();
        self.reconcile_at(client_id, estimate, 0, now)
    }
}

impl Default for SpendGuard {
    fn default() -> (g: SpendGuard)
        ensures
            g@.is_empty(),
            g.max() == DEFAULT_MAX_CENTS_PER_WINDOW * MICROS_PER_CENT,
            g.window() == seconds(DEFAULT_SPEND_WINDOW_SECS as nat),
    {
        SpendGuard::new()
    }
}

/// An attempt to reserve: the estimated cost and when it is made.
pub struct Attempt {
    pub amount: u128,
    pub at: u128,
}

/// The window after a run of attempts to reserve.
pub open spec fn after_attempts(
    w: SpendWindow,
    attempts: Seq<Attempt>,
    length: nat,
    max: u128,
) -> SpendWindow
    decreases attempts.len(),
{
    if attempts.len() == 0 {
        w
    } else {
        let before = after_attempts(w, attempts.drop_last(), length, max);
        reserved(before, attempts.last().amount, attempts.last().at, length, max)
    }
}

/// The sum of the attempts in a run that were accepted.
pub open spec fn accepted(w: SpendWindow, attempts: Seq<Attempt>, length: nat, max: u128) -> nat
    decreases attempts.len(),
{
    if attempts.len() == 0 {
        0
    } else {
        let before = after_attempts(w, attempts.drop_last(), length, max);
        let c = current(before, attempts.last().at, length);
        accepted(w, attempts.drop_last(), length, max) + if fits(c, attempts.last().amount, max) {
            attempts.last().amount as nat
        } else {
            0
        }
    }
}

/// Reservations never push a client over its ceiling: what a window holds after any run of attempts
/// is within the ceiling, if it was before.
pub proof fn law_reservations_stay_under_the_ceiling(
    w: SpendWindow,
    attempts: Seq<Attempt>,
    length: nat,
    max: u128,
)
    requires
        w.spent <= max,
    ensures
        after_attempts(w, attempts, length, max).spent <= max,
    decreases attempts.len(),
{
    if attempts.len() > 0 {
        law_reservations_stay_under_the_ceiling(w, attempts.drop_last(), length, max);
    }
}

/// Within one window everything that was accepted is counted, so the accepted attempts together
/// never exceed what was left under the ceiling, however they interleave. Above the ceiling nothing
/// is accepted.
pub proof fn law_accepted_sum_is_bounded(
    w: SpendWindow,
    attempts: Seq<Attempt>,
    length: nat,
    max: u128,
)
    requires
        forall|i: int|
            0 <= i < attempts.len() ==> age((#[trigger] attempts[i]).at, w.started) <= length,
    ensures
        after_attempts(w, attempts, length, max).started == w.started,
        after_attempts(w, attempts, length, max).spent == w.spent + accepted(
            w,
            attempts,
            length,
            max,
        ),
        w.spent <= max ==> w.spent + accepted(w, attempts, length, max) <= max,
        w.spent > max ==> accepted(w, attempts, length, max) == 0,
    decreases attempts.len(),
{
    if attempts.len() > 0 {
        let before = attempts.drop_last();
        assert forall|i: int| 0 <= i < before.len() implies age(
            (#[trigger] before[i]).at,
            w.started,
        ) <= length by {
            assert(before[i] == attempts[i]);
        }
        law_accepted_sum_is_bounded(w, before, length, max);
        assert(attempts.last() == attempts[attempts.len() - 1]);
    }
}

/// Two reservations that fit one by one but not together are not both accepted within one window.
pub proof fn law_two_that_do_not_fit_do_not_both_pass(
    w: SpendWindow,
    first: Attempt,
    second: Attempt,
    length: nat,
    max: u128,
)
    requires
        !rolled_over(w, first.at, length),
        !rolled_over(w, second.at, length),
        w.spent + first.amount + second.amount > max,
    ensures
        ({
            let after = reserved(w, first.amount, first.at, length, max);
            !(fits(w, first.amount, max) && fits(
                current(after, second.at, length),
                second.amount,
                max,
            ))
        }),
{
}

/// An attempt that does not fit reserves nothing.
pub proof fn law_rejected_attempt_reserves_nothing(
    w: SpendWindow,
    amount: u128,
    now: u128,
    length: nat,
    max: u128,
)
    requires
        !fits(current(w, now, length), amount, max),
    ensures
        reserved(w, amount, now, length, max).spent == current(w, now, length).spent,
{
}

/// Releasing a reservation brings back what was spent before it.
pub proof fn law_release_undoes_a_reservation(
    w: SpendWindow,
    amount: u128,
    now: u128,
    length: nat,
    max: u128,
)
    requires
        fits(current(w, now, length), amount, max),
    ensures
        adjusted(reserved(w, amount, now, length, max), amount, 0) == current(w, now, length),
{
}

/// Adjusting a reservation to the real cost leaves what reserving the real cost would have left,
/// even where that is above the ceiling.
pub proof fn law_reconciling_counts_the_real_cost(
    w: SpendWindow,
    estimate: u128,
    actual: u128,
    now: u128,
    length: nat,
    max: u128,
)
    requires
        fits(current(w, now, length), estimate, max),
    ensures
        adjusted(reserved(w, estimate, now, length, max), estimate, actual).spent == capped_sum(
            current(w, now, length).spent as nat,
            actual as nat,
        ),
        adjusted(reserved(w, estimate, now, length, max), estimate, estimate) == reserved(
            w,
            estimate,
            now,
            length,
            max,
        ),
{
}

// What holds of both guards.

/// By default four calls with one prompt within a minute are a loop, two hundred calls are remembered, and
/// a client may spend fifty dollars, 5000 cents, within an hour.
pub proof fn law_defaults_of_the_guards()
    ensures
        DEFAULT_LOOP_REPEAT_THRESHOLD == 4,
        seconds(DEFAULT_LOOP_WINDOW_SECS as nat) == 60_000_000_000,
        MAX_HISTORY_PER_CLIENT == 200,
        DEFAULT_MAX_CENTS_PER_WINDOW * MICROS_PER_CENT == 5_000_000_000,
        seconds(DEFAULT_SPEND_WINDOW_SECS as nat) == 3_600_000_000_000,
{
}

/// The hash of a prompt is that of the whole prompt: what the hasher makes of all that is written of it.
pub proof fn law_hashes_are_of_the_whole_prompt(prompt: Seq<char>)
    ensures
        prompt_hash(prompt) == DefaultHasher::spec_finish(text_writes(prompt)),
{
}

/// What is remembered of a client's calls are the last of them: those that are no older than the window
/// at the time of the latest, and two hundred at most.
pub proof fn law_the_last_calls_are_remembered(calls: Seq<Mark>, window: nat)
    requires
        in_order(calls),
        calls.len() > 0,
    ensures
        exists|k: int|
            {
                &&& 0 <= k < calls.len()
                &&& after_calls(calls, window) == #[trigger] calls.skip(k)
                &&& forall|i: int|
                    0 <= i < calls.len() ==> (k <= i <==> age(
                        calls.last().at,
                        #[trigger] calls[i].at,
                    ) <= window && i >= calls.len() - 200)
            },
{
    let now = calls.last().at;
    lemma_after_calls(calls, window);
    lemma_kept(calls, now, window);
    let k = forgotten(calls, window);
    assert(after_calls(calls, window) == calls.skip(k));
    assert forall|i: int| 0 <= i < calls.len() implies (k <= i <==> age(
        now,
        #[trigger] calls[i].at,
    ) <= window && i >= calls.len() - 200) by {}
}

/// The history after a call ends with that call, as it was made.
pub proof fn law_every_call_is_remembered(h: Seq<Mark>, call: Mark, window: nat, threshold: nat)
    ensures
        recorded(h, call, window).len() > 0,
        recorded(h, call, window).last() == call,
        history_of(Map::<Seq<char>, Seq<Mark>>::empty(), seq![]).len() == 0,
        threshold <= 1 ==> looping(h, call, window, threshold),
        h.len() == 0 && threshold > 1 ==> !looping(h, call, window, threshold),
{
}

/// A guard remembers nothing of a client that it has not seen, and what it holds of any other.
pub proof fn law_clients_have_their_own_history(
    m: Map<Seq<char>, Seq<Mark>>,
    client: Seq<char>,
    h: Seq<Mark>,
    other: Seq<char>,
)
    ensures
        !m.dom().contains(client) ==> history_of(m, client).len() == 0,
        history_of(m.insert(client, h), client) == h,
        other != client ==> history_of(m.insert(client, h), other) == history_of(m, other),
{
}

/// How a guard counts: a call with another prompt makes no loop, and one with the same prompt within the
/// window counts one more.
pub proof fn law_only_the_same_prompt_counts(h: Seq<Mark>, mark: Mark, hash: u64)
    ensures
        repeats(Seq::<Mark>::empty(), hash) == 0,
        mark.hash == hash ==> repeats(h.push(mark), hash) == repeats(h, hash) + 1,
        mark.hash != hash ==> repeats(h.push(mark), hash) == repeats(h, hash),
{
    assert(h.push(mark).drop_last() == h);
}

/// A client's window: one that was never seen has spent nothing, and begins now; one whose window has
/// lasted longer than its length begins anew; any other goes on.
pub proof fn law_windows_begin_anew_when_they_are_over(
    m: Map<Seq<char>, SpendWindow>,
    client: Seq<char>,
    w: SpendWindow,
    now: u128,
    length: nat,
)
    ensures
        !m.dom().contains(client) ==> window_of(m, client, now).spent == 0 && window_of(
            m,
            client,
            now,
        ).started == now,
        m.dom().contains(client) ==> window_of(m, client, now) == m[client],
        now <= w.started + length ==> current(w, now, length) == w,
        now > w.started + length ==> current(w, now, length).spent == 0 && current(
            w,
            now,
            length,
        ).started == now,
{
}

/// A client is under its ceiling if it was never seen, if its window is over, or if it has spent less than
/// the ceiling; and only then.
pub proof fn law_clients_are_held_to_the_ceiling(
    m: Map<Seq<char>, SpendWindow>,
    client: Seq<char>,
    now: u128,
    length: nat,
    max: u128,
)
    ensures
        !m.dom().contains(client) ==> under_ceiling(m, client, now, length, max),
        m.dom().contains(client) && now > m[client].started + length ==> under_ceiling(
            m,
            client,
            now,
            length,
            max,
        ),
        m.dom().contains(client) && now <= m[client].started + length ==> (under_ceiling(
            m,
            client,
            now,
            length,
            max,
        ) <==> m[client].spent < max),
{
}

/// The window of a client after costs that were recorded one by one.
pub open spec fn after_costs(w: SpendWindow, costs: Seq<Attempt>, length: nat) -> SpendWindow
    decreases costs.len(),
{
    if costs.len() == 0 {
        w
    } else {
        let c = current(
            after_costs(w, costs.drop_last(), length),
            costs.last().at,
            length,
        );
        SpendWindow { spent: capped_sum(c.spent as nat, costs.last().amount as nat), ..c }
    }
}

/// The sum of amounts.
pub open spec fn sum_of(costs: Seq<Attempt>) -> int
    decreases costs.len(),
{
    if costs.len() == 0 {
        0
    } else {
        sum_of(costs.drop_last()) + costs.last().amount
    }
}

/// Within a window every cost counts in full: what is spent is the sum of all of them, as far as it can be
/// held.
pub proof fn law_costs_add_up_within_a_window(w: SpendWindow, costs: Seq<Attempt>, length: nat)
    requires
        forall|i: int|
            0 <= i < costs.len() ==> (#[trigger] costs[i]).at <= w.started + length,
    ensures
        after_costs(w, costs, length).started == w.started,
        sum_of(costs) >= 0,
        w.spent + sum_of(costs) <= u128::MAX ==> after_costs(w, costs, length).spent == w.spent
            + sum_of(costs),
        w.spent + sum_of(costs) > u128::MAX ==> after_costs(w, costs, length).spent == u128::MAX,
    decreases costs.len(),
{
    if costs.len() > 0 {
        let before = costs.drop_last();
        assert forall|i: int| 0 <= i < before.len() implies (#[trigger] before[i]).at <= w.started
            + length by {
            assert(before[i] == costs[i]);
        }
        law_costs_add_up_within_a_window(w, before, length);
        assert(costs[costs.len() - 1].at <= w.started + length);
    }
}

/// A reservation is accepted exactly if what is spent and the amount are together no more than the
/// ceiling, and then counts in full; a refused one changes nothing of the window.
pub proof fn law_reservations_fit_up_to_the_ceiling(
    w: SpendWindow,
    amount: u128,
    now: u128,
    length: nat,
    max: u128,
)
    requires
        now <= w.started + length,
    ensures
        fits(current(w, now, length), amount, max) <==> w.spent + amount <= max,
        w.spent + amount <= max ==> reserved(w, amount, now, length, max).spent == w.spent
            + amount && reserved(w, amount, now, length, max).started == w.started,
        w.spent + amount > max ==> reserved(w, amount, now, length, max) == w,
{
}

/// A reservation after the window is over is the first of a new one.
pub proof fn law_reservations_begin_a_new_window(
    w: SpendWindow,
    amount: u128,
    now: u128,
    length: nat,
    max: u128,
)
    requires
        now > w.started + length,
    ensures
        fits(current(w, now, length), amount, max) <==> amount <= max,
        reserved(w, amount, now, length, max).started == now,
        amount <= max ==> reserved(w, amount, now, length, max).spent == amount,
        amount > max ==> reserved(w, amount, now, length, max).spent == 0,
{
}

/// An estimate is replaced by the real cost: the difference is added or taken away, no further than to
/// zero, and the window goes on.
pub proof fn law_estimates_are_replaced(w: SpendWindow, estimate: u128, actual: u128)
    ensures
        adjusted(w, estimate, actual).started == w.started,
        estimate <= w.spent + actual && w.spent + actual - estimate <= u128::MAX ==> adjusted(
            w,
            estimate,
            actual,
        ).spent + estimate == w.spent + actual,
        estimate <= w.spent + actual && w.spent + actual - estimate > u128::MAX ==> adjusted(
            w,
            estimate,
            actual,
        ).spent == u128::MAX,
        estimate > w.spent + actual ==> adjusted(w, estimate, actual).spent == 0,
{
}

} // verus!
