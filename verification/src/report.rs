//! What is reported from the records of a period.

use crate::telemetry::{TelemetryData, TelemetryRecorder};
use crate::text::same_text;
use vstd::prelude::*;
use vstd::string::*;

verus! {

/// The records of a period, both its ends included.
pub open spec fn in_period(d: TelemetryData, start: i64, end: i64) -> bool {
    start <= d.timestamp <= end
}

/// Those of the records that fall into a period, in their order.
pub open spec fn reported(records: Seq<TelemetryData>, start: i64, end: i64) -> Seq<TelemetryData>
    decreases records.len(),
{
    if records.len() == 0 {
        seq![]
    } else {
        let before = reported(records.drop_last(), start, end);
        if in_period(records.last(), start, end) {
            before.push(records.last())
        } else {
            before
        }
    }
}

/// The sum of a quantity over records.
pub open spec fn total(records: Seq<TelemetryData>, f: spec_fn(TelemetryData) -> int) -> int
    decreases records.len(),
{
    if records.len() == 0 {
        0
    } else {
        total(records.drop_last(), f) + f(records.last())
    }
}

/// How many records tell of success.
pub open spec fn successes(records: Seq<TelemetryData>) -> int {
    total(
        records,
        |d: TelemetryData|
            if d.success {
                1
            } else {
                0
            },
    )
}

/// What the records' calls cost.
pub open spec fn cost(records: Seq<TelemetryData>) -> int {
    total(records, |d: TelemetryData| d.chosen_cost as int)
}

/// What the records' calls saved.
pub open spec fn savings(records: Seq<TelemetryData>) -> int {
    total(records, |d: TelemetryData| d.cost_delta as int)
}

/// The sum of the records' latencies.
pub open spec fn latency(records: Seq<TelemetryData>) -> int {
    total(records, |d: TelemetryData| d.latency_ms as int)
}

/// Those of the records that are for a model, in their order.
pub open spec fn of_model(records: Seq<TelemetryData>, model: Seq<char>) -> Seq<TelemetryData>
    decreases records.len(),
{
    if records.len() == 0 {
        seq![]
    } else {
        let before = of_model(records.drop_last(), model);
        if records.last().chosen_model@ == model {
            before.push(records.last())
        } else {
            before
        }
    }
}

/// Those of the records that are for a tier, in their order.
pub open spec fn of_tier(records: Seq<TelemetryData>, tier: Seq<char>) -> Seq<TelemetryData>
    decreases records.len(),
{
    if records.len() == 0 {
        seq![]
    } else {
        let before = of_tier(records.drop_last(), tier);
        if records.last().user_tier@ == tier {
            before.push(records.last())
        } else {
            before
        }
    }
}

/// How much a model was used.
#[derive(Debug)]
pub struct ModelUsage {
    pub model_name: String,
    pub usage_count: u64,
    pub total_cost: u128,
    pub total_savings: i128,
}

/// How much a tier was used.
#[derive(Debug)]
pub struct TierBreakdown {
    pub tier: String,
    pub request_count: u64,
    pub total_cost: u128,
}

/// What is reported of a period.
#[derive(Debug)]
pub struct RoiReport {
    pub period_start: i64,
    pub period_end: i64,
    pub total_requests: u64,
    pub successful_requests: u64,
    pub failed_requests: u64,
    pub total_cost: u128,
    pub total_savings: i128,
    pub average_latency_ms: u64,
    /// The most used models, the most used first.
    pub top_models: Vec<ModelUsage>,
    pub cost_breakdown_by_tier: Vec<TierBreakdown>,
}

/// How many models a report lists at most.
pub const TOP_MODELS: usize = 10;

/// An entry says of its model what the records say.
pub open spec fn usage_of(u: ModelUsage, records: Seq<TelemetryData>) -> bool {
    let own = of_model(records, u.model_name@);
    &&& own.len() > 0
    &&& u.usage_count == own.len()
    &&& u.total_cost == cost(own)
    &&& u.total_savings == savings(own)
}

/// The entries are of different models, and each says what the records say.
pub open spec fn usages_of(list: Seq<ModelUsage>, records: Seq<TelemetryData>) -> bool {
    &&& forall|i: int, j: int|
        0 <= i < j < list.len() ==> #[trigger] list[i].model_name@ != #[trigger] list[j].model_name@
    &&& forall|i: int| 0 <= i < list.len() ==> usage_of(#[trigger] list[i], records)
}

/// A list holds an entry for a model.
pub open spec fn lists_model(list: Seq<ModelUsage>, model: Seq<char>) -> bool {
    exists|i: int| 0 <= i < list.len() && (#[trigger] list[i]).model_name@ == model
}

/// A list holds an entry for every model of the records.
pub open spec fn lists_every_model(list: Seq<ModelUsage>, records: Seq<TelemetryData>) -> bool {
    forall|r: int|
        0 <= r < records.len() ==> lists_model(list, (#[trigger] records[r]).chosen_model@)
}

/// The list is ordered by use, the most used first.
pub open spec fn by_use(list: Seq<ModelUsage>) -> bool {
    forall|i: int, j: int|
        0 <= i < j < list.len() ==> #[trigger] list[i].usage_count >= #[trigger] list[j].usage_count
}

/// The most used models of the records: at most ten, fewer only if there are no more models; each
/// with what the records say of it; the most used first; and none left out that is used more than
/// one that is listed. Among models that are used equally often the choice and the order are open.
pub open spec fn top_of(list: Seq<ModelUsage>, records: Seq<TelemetryData>) -> bool {
    &&& usages_of(list, records)
    &&& by_use(list)
    &&& list.len() <= TOP_MODELS
    &&& list.len() < TOP_MODELS ==> lists_every_model(list, records)
    &&& forall|r: int, i: int|
        0 <= r < records.len() && 0 <= i < list.len() && !lists_model(
            list,
            (#[trigger] records[r]).chosen_model@,
        ) ==> of_model(records, records[r].chosen_model@).len() <= (
        #[trigger] list[i]).usage_count
}

/// An entry says of its tier what the records say.
pub open spec fn tier_use_of(t: TierBreakdown, records: Seq<TelemetryData>) -> bool {
    let own = of_tier(records, t.tier@);
    &&& own.len() > 0
    &&& t.request_count == own.len()
    &&& t.total_cost == cost(own)
}

/// The entries are of different tiers, each says what the records say, and every tier of the
/// records has one.
pub open spec fn tiers_of(list: Seq<TierBreakdown>, records: Seq<TelemetryData>) -> bool {
    &&& forall|i: int, j: int|
        0 <= i < j < list.len() ==> #[trigger] list[i].tier@ != #[trigger] list[j].tier@
    &&& forall|i: int| 0 <= i < list.len() ==> tier_use_of(#[trigger] list[i], records)
    &&& forall|r: int|
        0 <= r < records.len() ==> lists_tier(list, (#[trigger] records[r]).user_tier@)
}

/// A list holds an entry for a tier.
pub open spec fn lists_tier(list: Seq<TierBreakdown>, tier: Seq<char>) -> bool {
    exists|i: int| 0 <= i < list.len() && (#[trigger] list[i]).tier@ == tier
}

/// What a report says of the records of its period.
pub open spec fn report_of(r: RoiReport, records: Seq<TelemetryData>) -> bool {
    &&& r.total_requests == records.len()
    &&& r.successful_requests == successes(records)
    &&& r.failed_requests == records.len() - successes(records)
    &&& r.total_cost == cost(records)
    &&& r.total_savings == savings(records)
    &&& r.average_latency_ms == if records.len() == 0 {
        0
    } else {
        latency(records) / records.len() as int
    }
    &&& top_of(r.top_models@, records)
    &&& tiers_of(r.cost_breakdown_by_tier@, records)
}

/// The totals of a list of records lie within what the list's length allows.
proof fn lemma_bounds(records: Seq<TelemetryData>)
    ensures
        0 <= successes(records) <= records.len(),
        0 <= cost(records) <= records.len() * u64::MAX,
        i64::MIN * records.len() <= savings(records) <= records.len() * i64::MAX,
        0 <= latency(records) <= records.len() * u64::MAX,
    decreases records.len(),
{
    if records.len() > 0 {
        let n = records.len() as int;
        lemma_bounds(records.drop_last());
        assert((n - 1) * u64::MAX + u64::MAX == n * u64::MAX) by (nonlinear_arith);
        assert(i64::MIN * (n - 1) + i64::MIN == i64::MIN * n) by (nonlinear_arith);
        assert((n - 1) * i64::MAX + i64::MAX == n * i64::MAX) by (nonlinear_arith);
    }
}

/// As many records as a machine can count have totals that its wide integers can hold.
proof fn lemma_fits(records: Seq<TelemetryData>)
    requires
        records.len() <= u64::MAX,
    ensures
        0 <= successes(records) <= records.len(),
        0 <= cost(records) <= u128::MAX,
        i128::MIN <= savings(records) <= i128::MAX,
        0 <= latency(records) <= u128::MAX,
        records.len() > 0 ==> 0 <= latency(records) / records.len() as int <= u64::MAX,
{
    lemma_bounds(records);
    let n = records.len() as int;
    assert(n * u64::MAX <= u64::MAX * u64::MAX) by (nonlinear_arith)
        requires
            0 <= n <= u64::MAX,
    ;
    assert(i64::MIN * n >= i64::MIN * u64::MAX) by (nonlinear_arith)
        requires
            0 <= n <= u64::MAX,
    ;
    assert(n * i64::MAX <= u64::MAX * i64::MAX) by (nonlinear_arith)
        requires
            0 <= n <= u64::MAX,
    ;
    if n > 0 {
        let l = latency(records);
        assert(0 <= l / n <= u64::MAX) by (nonlinear_arith)
            requires
                0 <= l <= n * u64::MAX,
                n > 0,
        ;
    }
}

proof fn lemma_of_model_len(records: Seq<TelemetryData>, model: Seq<char>)
    ensures
        of_model(records, model).len() <= records.len(),
        of_model(records, model).len() > 0 ==> exists|r: int|
            0 <= r < records.len() && (#[trigger] records[r]).chosen_model@ == model,
    decreases records.len(),
{
    if records.len() > 0 {
        let before = records.drop_last();
        lemma_of_model_len(before, model);
        if records.last().chosen_model@ == model {
            assert(records[records.len() - 1].chosen_model@ == model);
        } else if of_model(before, model).len() > 0 {
            let r = choose|r: int|
                0 <= r < before.len() && (#[trigger] before[r]).chosen_model@ == model;
            assert(records[r].chosen_model@ == model);
        }
    }
}

proof fn lemma_of_tier_len(records: Seq<TelemetryData>, tier: Seq<char>)
    ensures
        of_tier(records, tier).len() <= records.len(),
        of_tier(records, tier).len() > 0 ==> exists|r: int|
            0 <= r < records.len() && (#[trigger] records[r]).user_tier@ == tier,
    decreases records.len(),
{
    if records.len() > 0 {
        let before = records.drop_last();
        lemma_of_tier_len(before, tier);
        if records.last().user_tier@ == tier {
            assert(records[records.len() - 1].user_tier@ == tier);
        } else if of_tier(before, tier).len() > 0 {
            let r = choose|r: int| 0 <= r < before.len() && (#[trigger] before[r]).user_tier@ == tier;
            assert(records[r].user_tier@ == tier);
        }
    }
}

/// Counts one more record into the usage of its model.
fn add_usage(list: &mut Vec<ModelUsage>, d: &TelemetryData, Ghost(records): Ghost<Seq<TelemetryData>>)
    requires
        records.len() < u64::MAX,
        usages_of(old(list)@, records),
        lists_every_model(old(list)@, records),
    ensures
        usages_of(final(list)@, records.push(*d)),
        lists_every_model(final(list)@, records.push(*d)),
{
    let ghost after = records.push(*d);
    let ghost before_list = list@;
    let model = &d.chosen_model;
    proof {
        assert(after.drop_last() == records);
        assert(after.last() == *d);
        lemma_of_model_len(after, model@);
        lemma_fits(of_model(after, model@));
        lemma_fits(of_model(records, model@));
        let own = of_model(records, model@);
        assert(own.push(*d).drop_last() == own);
    }
    let mut i: usize = 0;
    while i < list.len()
        invariant
            list@ == before_list,
            model == d.chosen_model,
            i <= list@.len(),
            forall|j: int| 0 <= j < i ==> (#[trigger] list@[j]).model_name@ != model@,
        ensures
            list@ == before_list,
            i <= list@.len(),
            i < list@.len() ==> list@[i as int].model_name@ == model@,
            forall|j: int| 0 <= j < i ==> (#[trigger] list@[j]).model_name@ != model@,
        decreases list@.len() - i,
    {
        if same_text(list[i].model_name.as_str(), model.as_str()) {
            break;
        }
        i = i + 1;
    }
    if i < list.len() {
        proof {
            assert(usage_of(list@[i as int], records));
        }
        let u = ModelUsage {
            model_name: model.clone(),
            usage_count: list[i].usage_count + 1,
            total_cost: list[i].total_cost + d.chosen_cost as u128,
            total_savings: list[i].total_savings + d.cost_delta as i128,
        };
        list.set(i, u);
    } else {
        let u = ModelUsage {
            model_name: model.clone(),
            usage_count: 1,
            total_cost: d.chosen_cost as u128,
            total_savings: d.cost_delta as i128,
        };
        proof {
            if of_model(records, model@).len() > 0 {
                lemma_of_model_len(records, model@);
                let r = choose|r: int|
                    0 <= r < records.len() && (#[trigger] records[r]).chosen_model@ == model@;
                assert(lists_model(list@, records[r].chosen_model@));
            }
            assert(of_model(after, model@) == seq![*d]);
            assert(seq![*d].drop_last() == Seq::<TelemetryData>::empty());
            reveal_with_fuel(total, 2);
        }
        list.push(u);
    }
    proof {
        assert(usage_of(list@[i as int], after));
        assert forall|j: int| 0 <= j < list@.len() implies usage_of(#[trigger] list@[j], after) by {
            if j != i {
                assert(list@[j] == before_list[j]);
                assert(list@[j].model_name@ != model@) by {
                    if j > i {
                        assert(before_list[i as int].model_name@ != before_list[j].model_name@);
                    }
                }
                assert(usage_of(before_list[j], records));
            }
        }
        assert forall|a: int, b: int| 0 <= a < b < list@.len() implies #[trigger] list@[a].model_name@
            != #[trigger] list@[b].model_name@ by {
            if a != i && b != i {
                assert(before_list[a].model_name@ != before_list[b].model_name@);
            } else if a == i {
                assert(before_list[a].model_name@ != before_list[b].model_name@);
            } else if b < before_list.len() {
                assert(before_list[a].model_name@ != before_list[b].model_name@);
            }
        }
        assert forall|r: int| 0 <= r < after.len() implies lists_model(
            list@,
            (#[trigger] after[r]).chosen_model@,
        ) by {
            if r < records.len() {
                assert(after[r] == records[r]);
                assert(lists_model(before_list, records[r].chosen_model@));
                let j = choose|j: int|
                    0 <= j < before_list.len() && (#[trigger] before_list[j]).model_name@
                        == records[r].chosen_model@;
                assert(list@[j].model_name@ == records[r].chosen_model@);
            } else {
                assert(list@[i as int].model_name@ == model@);
            }
        }
    }
}

/// Counts one more record into the usage of its tier.
fn add_tier_use(
    list: &mut Vec<TierBreakdown>,
    d: &TelemetryData,
    Ghost(records): Ghost<Seq<TelemetryData>>,
)
    requires
        records.len() < u64::MAX,
        tiers_of(old(list)@, records),
    ensures
        tiers_of(final(list)@, records.push(*d)),
{
    let ghost after = records.push(*d);
    let ghost before_list = list@;
    let tier = &d.user_tier;
    proof {
        assert(after.drop_last() == records);
        assert(after.last() == *d);
        lemma_of_tier_len(after, tier@);
        lemma_fits(of_tier(after, tier@));
        lemma_fits(of_tier(records, tier@));
        let own = of_tier(records, tier@);
        assert(own.push(*d).drop_last() == own);
    }
    let mut i: usize = 0;
    while i < list.len()
        invariant
            list@ == before_list,
            tier == d.user_tier,
            i <= list@.len(),
            forall|j: int| 0 <= j < i ==> (#[trigger] list@[j]).tier@ != tier@,
        ensures
            list@ == before_list,
            i <= list@.len(),
            i < list@.len() ==> list@[i as int].tier@ == tier@,
            forall|j: int| 0 <= j < i ==> (#[trigger] list@[j]).tier@ != tier@,
        decreases list@.len() - i,
    {
        if same_text(list[i].tier.as_str(), tier.as_str()) {
            break;
        }
        i = i + 1;
    }
    if i < list.len() {
        proof {
            assert(tier_use_of(list@[i as int], records));
        }
        let t = TierBreakdown {
            tier: tier.clone(),
            request_count: list[i].request_count + 1,
            total_cost: list[i].total_cost + d.chosen_cost as u128,
        };
        list.set(i, t);
    } else {
        let t = TierBreakdown {
            tier: tier.clone(),
            request_count: 1,
            total_cost: d.chosen_cost as u128,
        };
        proof {
            if of_tier(records, tier@).len() > 0 {
                lemma_of_tier_len(records, tier@);
                let r = choose|r: int|
                    0 <= r < records.len() && (#[trigger] records[r]).user_tier@ == tier@;
                assert(lists_tier(list@, records[r].user_tier@));
            }
            assert(of_tier(after, tier@) == seq![*d]);
            assert(seq![*d].drop_last() == Seq::<TelemetryData>::empty());
            reveal_with_fuel(total, 2);
        }
        list.push(t);
    }
    proof {
        assert(tier_use_of(list@[i as int], after));
        assert forall|j: int| 0 <= j < list@.len() implies tier_use_of(#[trigger] list@[j], after) by {
            if j != i {
                assert(list@[j] == before_list[j]);
                assert(list@[j].tier@ != tier@) by {
                    if j > i {
                        assert(before_list[i as int].tier@ != before_list[j].tier@);
                    }
                }
                assert(tier_use_of(before_list[j], records));
            }
        }
        assert forall|a: int, b: int| 0 <= a < b < list@.len() implies #[trigger] list@[a].tier@
            != #[trigger] list@[b].tier@ by {
            if a != i && b != i {
                assert(before_list[a].tier@ != before_list[b].tier@);
            } else if a == i {
                assert(before_list[a].tier@ != before_list[b].tier@);
            } else if b < before_list.len() {
                assert(before_list[a].tier@ != before_list[b].tier@);
            }
        }
        assert forall|r: int| 0 <= r < after.len() implies lists_tier(
            list@,
            (#[trigger] after[r]).user_tier@,
        ) by {
            if r < records.len() {
                assert(after[r] == records[r]);
                assert(lists_tier(before_list, records[r].user_tier@));
                let j = choose|j: int|
                    0 <= j < before_list.len() && (#[trigger] before_list[j]).tier@
                        == records[r].user_tier@;
                assert(list@[j].tier@ == records[r].user_tier@);
            } else {
                assert(list@[i as int].tier@ == tier@);
            }
        }
    }
}

/// Where an entry of `out.push(rest[k]) + rest.remove(k)` stands in `out + rest`.
spec fn came_from(out_len: int, k: int, i: int) -> int {
    if i < out_len {
        i
    } else if i == out_len {
        out_len + k
    } else if i - 1 - out_len < k {
        i - 1
    } else {
        i
    }
}

proof fn lemma_moved(
    out: Seq<ModelUsage>,
    rest: Seq<ModelUsage>,
    k: int,
    records: Seq<TelemetryData>,
)
    requires
        0 <= k < rest.len(),
        usages_of(out + rest, records),
        lists_every_model(out + rest, records),
    ensures
        usages_of(out.push(rest[k]) + rest.remove(k), records),
        lists_every_model(out.push(rest[k]) + rest.remove(k), records),
{
    let all = out + rest;
    let moved = out.push(rest[k]) + rest.remove(k);
    let n = out.len() as int;
    assert(moved.len() == all.len());
    assert forall|i: int| 0 <= i < moved.len() implies 0 <= came_from(n, k, i) < all.len()
        && moved[i] == #[trigger] all[came_from(n, k, i)] by {}
    assert forall|i: int| 0 <= i < moved.len() implies usage_of(#[trigger] moved[i], records) by {
        assert(moved[i] == all[came_from(n, k, i)]);
    }
    assert forall|i: int, j: int| 0 <= i < j < moved.len() implies #[trigger] moved[i].model_name@
        != #[trigger] moved[j].model_name@ by {
        let a = came_from(n, k, i);
        let b = came_from(n, k, j);
        assert(moved[i] == all[a] && moved[j] == all[b]);
        assert(a != b);
        if a < b {
            assert(all[a].model_name@ != all[b].model_name@);
        } else {
            assert(all[b].model_name@ != all[a].model_name@);
        }
    }
    assert forall|r: int| 0 <= r < records.len() implies lists_model(
        moved,
        (#[trigger] records[r]).chosen_model@,
    ) by {
        let model = records[r].chosen_model@;
        assert(lists_model(all, model));
        let a = choose|a: int| 0 <= a < all.len() && (#[trigger] all[a]).model_name@ == model;
        let i = if a < n {
            a
        } else if a == n + k {
            n
        } else if a < n + k {
            a + 1
        } else {
            a
        };
        assert(moved[i] == all[a]);
    }
}

/// The most used of all models.
fn take_top(list: Vec<ModelUsage>, Ghost(records): Ghost<Seq<TelemetryData>>) -> (out: Vec<
    ModelUsage,
>)
    requires
        usages_of(list@, records),
        lists_every_model(list@, records),
    ensures
        top_of(out@, records),
{
    let mut rest = list;
    let mut out: Vec<ModelUsage> = Vec::new();
    assert(out@ + rest@ == rest@);
    while out.len() < TOP_MODELS && rest.len() > 0
        invariant
            out@.len() <= TOP_MODELS,
            usages_of(out@ + rest@, records),
            lists_every_model(out@ + rest@, records),
            by_use(out@),
            forall|i: int, j: int|
                0 <= i < out@.len() && 0 <= j < rest@.len() ==> (#[trigger] out@[i]).usage_count
                    >= (#[trigger] rest@[j]).usage_count,
        decreases rest@.len(),
    {
        let mut k: usize = 0;
        let mut i: usize = 1;
        while i < rest.len()
            invariant
                k < i <= rest@.len(),
                forall|j: int|
                    0 <= j < i ==> (#[trigger] rest@[j]).usage_count
                        <= rest@[k as int].usage_count,
            decreases rest@.len() - i,
        {
            if rest[i].usage_count > rest[k].usage_count {
                k = i;
            }
            i = i + 1;
        }
        let ghost out0 = out@;
        let ghost rest0 = rest@;
        proof {
            lemma_moved(out0, rest0, k as int, records);
        }
        let u = rest.remove(k);
        out.push(u);
        assert(out@ == out0.push(rest0[k as int]));
        assert(rest@ == rest0.remove(k as int));
        assert forall|j: int| 0 <= j < rest@.len() implies exists|m: int|
            0 <= m < rest0.len() && #[trigger] rest@[j] == rest0[m] by {
            if j < k {
                assert(rest@[j] == rest0[j]);
            } else {
                assert(rest@[j] == rest0[j + 1]);
            }
        }
    }
    let ghost all = out@ + rest@;
    proof {
        assert forall|i: int| 0 <= i < out@.len() implies out@[i] == #[trigger] all[i] by {}
        assert forall|i: int| 0 <= i < out@.len() implies usage_of(#[trigger] out@[i], records) by {
            assert(usage_of(all[i], records));
        }
        assert forall|i: int, j: int| 0 <= i < j < out@.len() implies #[trigger] out@[i].model_name@
            != #[trigger] out@[j].model_name@ by {
            assert(all[i].model_name@ != all[j].model_name@);
        }
        if out@.len() < TOP_MODELS {
            assert(all == out@);
        }
        assert forall|r: int, i: int|
            0 <= r < records.len() && 0 <= i < out@.len() && !lists_model(
                out@,
                (#[trigger] records[r]).chosen_model@,
            ) implies of_model(records, records[r].chosen_model@).len() <= (
        #[trigger] out@[i]).usage_count by {
            let model = records[r].chosen_model@;
            assert(lists_model(all, model));
            let a = choose|a: int| 0 <= a < all.len() && (#[trigger] all[a]).model_name@ == model;
            if a < out@.len() {
                assert(out@[a].model_name@ == model);
            } else {
                let j = a - out@.len();
                assert(all[a] == rest@[j]);
                assert(usage_of(all[a], records));
            }
        }
    }
    out
}

impl TelemetryRecorder {
    /// The report of a period on all the records that were read. The most used models are listed with
    /// what they cost and saved, and the tiers with what they cost.
    pub fn generate_roi_report(
        &self,
        all_records: &Vec<TelemetryData>,
        start_timestamp: i64,
        end_timestamp: i64,
    ) -> (r: RoiReport)
        ensures
            r.period_start == start_timestamp,
            r.period_end == end_timestamp,
            report_of(r, reported(all_records@, start_timestamp, end_timestamp)),
    {
        let mut requests: u64 = 0;
        let mut successful: u64 = 0;
        let mut total_cost: u128 = 0;
        let mut total_savings: i128 = 0;
        let mut total_latency: u128 = 0;
        let mut models: Vec<ModelUsage> = Vec::new();
        let mut tiers: Vec<TierBreakdown> = Vec::new();
        let n: usize = all_records.len();
        let mut i: usize = 0;
        while i < n
            invariant
                n == all_records@.len(),
                i <= n,
                ({
                    let p = reported(all_records@.take(i as int), start_timestamp, end_timestamp);
                    &&& p.len() <= i
                    &&& requests == p.len()
                    &&& successful == successes(p)
                    &&& total_cost == cost(p)
                    &&& total_savings == savings(p)
                    &&& total_latency == latency(p)
                    &&& usages_of(models@, p)
                    &&& lists_every_model(models@, p)
                    &&& tiers_of(tiers@, p)
                }),
            decreases all_records@.len() - i,
        {
            let d = &all_records[i];
            let ghost p = reported(all_records@.take(i as int), start_timestamp, end_timestamp);
            assert(all_records@.take(i + 1).drop_last() == all_records@.take(i as int));
            assert(all_records@.take(i + 1).last() == *d);
            if start_timestamp <= d.timestamp && d.timestamp <= end_timestamp {
                proof {
                    assert(p.push(*d).drop_last() == p);
                    lemma_fits(p.push(*d));
                }
                requests = requests + 1;
                if d.success {
                    successful = successful + 1;
                }
                total_cost = total_cost + d.chosen_cost as u128;
                total_savings = total_savings + d.cost_delta as i128;
                total_latency = total_latency + d.latency_ms as u128;
                add_usage(&mut models, d, Ghost(p));
                add_tier_use(&mut tiers, d, Ghost(p));
            }
            i = i + 1;
        }
        let ghost p = reported(all_records@, start_timestamp, end_timestamp);
        proof {
            assert(all_records@.take(all_records@.len() as int) == all_records@);
            lemma_fits(p);
        }
        let average_latency_ms: u64 = if requests == 0 {
            0
        } else {
            (total_latency / requests as u128) as u64
        };
        RoiReport {
            period_start: start_timestamp,
            period_end: end_timestamp,
            total_requests: requests,
            successful_requests: successful,
            failed_requests: requests - successful,
            total_cost,
            total_savings,
            average_latency_ms,
            top_models: take_top(models, Ghost(p)),
            cost_breakdown_by_tier: tiers,
        }
    }
}

/// How many requests the entries of a list count together.
pub open spec fn counted_requests(list: Seq<TierBreakdown>) -> int
    decreases list.len(),
{
    if list.len() == 0 {
        0
    } else {
        counted_requests(list.drop_last()) + list.last().request_count
    }
}

/// What the entries of a list cost together.
pub open spec fn counted_cost(list: Seq<TierBreakdown>) -> int
    decreases list.len(),
{
    if list.len() == 0 {
        0
    } else {
        counted_cost(list.drop_last()) + list.last().total_cost
    }
}

/// The records of a list of tiers, how many there are together and what they cost.
spec fn by_tier(tiers: Seq<Seq<char>>, records: Seq<TelemetryData>) -> (int, int)
    decreases tiers.len(),
{
    if tiers.len() == 0 {
        (0, 0)
    } else {
        let before = by_tier(tiers.drop_last(), records);
        let own = of_tier(records, tiers.last());
        (before.0 + own.len(), before.1 + cost(own))
    }
}

/// How often a tier stands in a list.
spec fn occurrences(tiers: Seq<Seq<char>>, tier: Seq<char>) -> int
    decreases tiers.len(),
{
    if tiers.len() == 0 {
        0
    } else {
        occurrences(tiers.drop_last(), tier) + if tiers.last() == tier {
            1int
        } else {
            0int
        }
    }
}

proof fn lemma_by_tier_step(tiers: Seq<Seq<char>>, records: Seq<TelemetryData>)
    requires
        records.len() > 0,
    ensures
        ({
            let n = occurrences(tiers, records.last().user_tier@);
            let before = by_tier(tiers, records.drop_last());
            &&& by_tier(tiers, records).0 == before.0 + n
            &&& by_tier(tiers, records).1 == before.1 + n * records.last().chosen_cost
        }),
    decreases tiers.len(),
{
    let c = records.last().chosen_cost;
    if tiers.len() == 0 {
        assert(0 * c == 0);
    } else {
        lemma_by_tier_step(tiers.drop_last(), records);
        let own = of_tier(records.drop_last(), tiers.last());
        assert(own.push(records.last()).drop_last() == own);
        let n = occurrences(tiers.drop_last(), records.last().user_tier@);
        assert((n + 1) * c == n * c + c) by (nonlinear_arith);
    }
}

proof fn lemma_by_tier_empty(tiers: Seq<Seq<char>>)
    ensures
        by_tier(tiers, Seq::<TelemetryData>::empty()) == (0int, 0int),
    decreases tiers.len(),
{
    if tiers.len() > 0 {
        lemma_by_tier_empty(tiers.drop_last());
    }
}

proof fn lemma_no_occurrence(tiers: Seq<Seq<char>>, tier: Seq<char>)
    requires
        forall|i: int| 0 <= i < tiers.len() ==> #[trigger] tiers[i] != tier,
    ensures
        occurrences(tiers, tier) == 0,
    decreases tiers.len(),
{
    if tiers.len() > 0 {
        assert(tiers[tiers.len() - 1] != tier);
        assert forall|i: int| 0 <= i < tiers.drop_last().len() implies #[trigger] tiers.drop_last()[i]
            != tier by {
            assert(tiers[i] != tier);
        }
        lemma_no_occurrence(tiers.drop_last(), tier);
    }
}

proof fn lemma_one_occurrence(tiers: Seq<Seq<char>>, k: int)
    requires
        0 <= k < tiers.len(),
        forall|i: int, j: int| 0 <= i < j < tiers.len() ==> #[trigger] tiers[i] != #[trigger] tiers[j],
    ensures
        occurrences(tiers, tiers[k]) == 1,
    decreases tiers.len(),
{
    let before = tiers.drop_last();
    if k == tiers.len() - 1 {
        assert forall|i: int| 0 <= i < before.len() implies #[trigger] before[i] != tiers[k] by {
            assert(before[i] == tiers[i]);
        }
        lemma_no_occurrence(before, tiers[k]);
    } else {
        assert forall|i: int, j: int| 0 <= i < j < before.len() implies #[trigger] before[i]
            != #[trigger] before[j] by {
            assert(tiers[i] != tiers[j]);
        }
        lemma_one_occurrence(before, k);
        assert(tiers[k] != tiers[tiers.len() - 1]);
    }
}

proof fn lemma_by_tier_total(tiers: Seq<Seq<char>>, records: Seq<TelemetryData>)
    requires
        forall|i: int, j: int| 0 <= i < j < tiers.len() ==> #[trigger] tiers[i] != #[trigger] tiers[j],
        forall|r: int|
            0 <= r < records.len() ==> tiers.contains((#[trigger] records[r]).user_tier@),
    ensures
        by_tier(tiers, records) == (records.len() as int, cost(records)),
    decreases records.len(),
{
    if records.len() == 0 {
        assert(records == Seq::<TelemetryData>::empty());
        lemma_by_tier_empty(tiers);
    } else {
        let before = records.drop_last();
        assert forall|r: int| 0 <= r < before.len() implies tiers.contains(
            (#[trigger] before[r]).user_tier@,
        ) by {
            assert(before[r] == records[r]);
        }
        lemma_by_tier_total(tiers, before);
        lemma_by_tier_step(tiers, records);
        let tier = records[records.len() - 1].user_tier@;
        assert(tiers.contains(tier));
        let k = choose|k: int| 0 <= k < tiers.len() && tiers[k] == tier;
        lemma_one_occurrence(tiers, k);
    }
}

spec fn tier_names(list: Seq<TierBreakdown>) -> Seq<Seq<char>> {
    list.map_values(|t: TierBreakdown| t.tier@)
}

proof fn lemma_entries_by_tier(list: Seq<TierBreakdown>, records: Seq<TelemetryData>)
    requires
        forall|i: int| 0 <= i < list.len() ==> tier_use_of(#[trigger] list[i], records),
    ensures
        by_tier(tier_names(list), records) == (counted_requests(list), counted_cost(list)),
    decreases list.len(),
{
    if list.len() > 0 {
        let before = list.drop_last();
        assert(tier_names(list).drop_last() == tier_names(before));
        assert(tier_names(list).last() == list.last().tier@);
        assert(tier_use_of(list[list.len() - 1], records));
        assert forall|i: int| 0 <= i < before.len() implies tier_use_of(
            #[trigger] before[i],
            records,
        ) by {
            assert(before[i] == list[i]);
        }
        lemma_entries_by_tier(before, records);
    }
}

/// The tiers of a report add up: together they have all its requests and all its cost.
pub proof fn law_tiers_add_up(r: RoiReport, records: Seq<TelemetryData>)
    requires
        report_of(r, records),
    ensures
        counted_requests(r.cost_breakdown_by_tier@) == r.total_requests,
        counted_cost(r.cost_breakdown_by_tier@) == r.total_cost,
{
    let list = r.cost_breakdown_by_tier@;
    let tiers = tier_names(list);
    assert forall|i: int, j: int| 0 <= i < j < tiers.len() implies #[trigger] tiers[i]
        != #[trigger] tiers[j] by {
        assert(list[i].tier@ != list[j].tier@);
    }
    assert forall|k: int| 0 <= k < records.len() implies tiers.contains(
        (#[trigger] records[k]).user_tier@,
    ) by {
        assert(lists_tier(list, records[k].user_tier@));
        let i = choose|i: int|
            0 <= i < list.len() && (#[trigger] list[i]).tier@ == records[k].user_tier@;
        assert(tiers[i] == records[k].user_tier@);
    }
    lemma_by_tier_total(tiers, records);
    lemma_entries_by_tier(list, records);
}

/// A report is about the records of its period, both ends included, and about all of them: none outside
/// it counts, none inside it is left out, and each counts once.
pub proof fn law_reports_are_about_their_period(
    records: Seq<TelemetryData>,
    start: i64,
    end: i64,
)
    ensures
        reported(records, start, end) == records.filter(
            |d: TelemetryData| start <= d.timestamp && d.timestamp <= end,
        ),
    decreases records.len(),
{
    reveal(Seq::filter);
    if records.len() > 0 {
        law_reports_are_about_their_period(records.drop_last(), start, end);
    }
}

/// The records of a model are those whose model has that name, and the records of a tier are those of
/// that tier.
pub proof fn law_records_are_told_apart_by_name(records: Seq<TelemetryData>, name: Seq<char>)
    ensures
        of_model(records, name) == records.filter(|d: TelemetryData| d.chosen_model@ == name),
        of_tier(records, name) == records.filter(|d: TelemetryData| d.user_tier@ == name),
    decreases records.len(),
{
    reveal(Seq::filter);
    if records.len() > 0 {
        law_records_are_told_apart_by_name(records.drop_last(), name);
    }
}

/// Each record adds its own cost, savings and latency to the sums, and one to the successes if it tells
/// of one.
pub proof fn law_each_record_is_added(records: Seq<TelemetryData>, d: TelemetryData)
    ensures
        cost(Seq::<TelemetryData>::empty()) == 0,
        savings(Seq::<TelemetryData>::empty()) == 0,
        latency(Seq::<TelemetryData>::empty()) == 0,
        successes(Seq::<TelemetryData>::empty()) == 0,
        cost(records.push(d)) == cost(records) + d.chosen_cost,
        savings(records.push(d)) == savings(records) + d.cost_delta,
        latency(records.push(d)) == latency(records) + d.latency_ms,
        d.success ==> successes(records.push(d)) == successes(records) + 1,
        !d.success ==> successes(records.push(d)) == successes(records),
{
    assert(records.push(d).drop_last() == records);
}

/// What a report says: how many requests there were, how many of them succeeded and failed, what they
/// cost and saved together, and how long one took on average, rounded down.
pub proof fn law_reports_say_what_the_records_say(r: RoiReport, records: Seq<TelemetryData>)
    requires
        report_of(r, records),
    ensures
        r.total_requests == records.len(),
        r.successful_requests == successes(records),
        r.successful_requests + r.failed_requests == r.total_requests,
        r.total_cost == cost(records),
        r.total_savings == savings(records),
        records.len() == 0 ==> r.average_latency_ms == 0,
        records.len() > 0 ==> r.average_latency_ms * records.len() <= latency(records) < (
        r.average_latency_ms + 1) * records.len(),
{
    if records.len() > 0 {
        let n = records.len() as int;
        let l = latency(records);
        assert((l / n) * n <= l < (l / n + 1) * n) by (nonlinear_arith)
            requires
                n > 0,
        ;
    }
}

/// The models that a report lists are at most ten, each once, the most used first, with the requests,
/// costs and savings of that model's records; a model that is not listed is used no more than any that
/// is, and is left out only if ten are listed.
pub proof fn law_the_most_used_models_are_listed(
    r: RoiReport,
    records: Seq<TelemetryData>,
    i: int,
    j: int,
    k: int,
)
    requires
        report_of(r, records),
        0 <= i < r.top_models@.len(),
        0 <= k < records.len(),
    ensures
        ({
            let list = r.top_models@;
            let own = of_model(records, list[i].model_name@);
            &&& list.len() <= 10
            &&& own.len() > 0
            &&& list[i].usage_count == own.len()
            &&& list[i].total_cost == cost(own)
            &&& list[i].total_savings == savings(own)
            &&& i < j < list.len() ==> list[i].usage_count >= list[j].usage_count
                && list[i].model_name@ != list[j].model_name@
            &&& (forall|m: int|
                0 <= m < list.len() ==> (#[trigger] list[m]).model_name@
                    != records[k].chosen_model@) ==> list.len() == 10 && of_model(
                records,
                records[k].chosen_model@,
            ).len() <= list[i].usage_count
        }),
{
    let list = r.top_models@;
    assert(usage_of(list[i], records));
    if forall|m: int|
        0 <= m < list.len() ==> (#[trigger] list[m]).model_name@ != records[k].chosen_model@ {
        assert(!lists_model(list, records[k].chosen_model@));
    }
}

/// A report lists every tier of its records once, with the requests and the costs of that tier's
/// records.
pub proof fn law_every_tier_is_listed(
    r: RoiReport,
    records: Seq<TelemetryData>,
    i: int,
    j: int,
    k: int,
)
    requires
        report_of(r, records),
        0 <= i < r.cost_breakdown_by_tier@.len(),
        0 <= k < records.len(),
    ensures
        ({
            let list = r.cost_breakdown_by_tier@;
            let own = of_tier(records, list[i].tier@);
            &&& own.len() > 0
            &&& list[i].request_count == own.len()
            &&& list[i].total_cost == cost(own)
            &&& i < j < list.len() ==> list[i].tier@ != list[j].tier@
            &&& exists|m: int|
                0 <= m < list.len() && (#[trigger] list[m]).tier@ == records[k].user_tier@
        }),
{
    let list = r.cost_breakdown_by_tier@;
    assert(tier_use_of(list[i], records));
    assert(lists_tier(list, records[k].user_tier@));
}

/// Up to ten models every model of the records is listed, and every tier always.
pub proof fn law_nothing_is_left_out_below_ten(r: RoiReport, records: Seq<TelemetryData>, k: int)
    requires
        report_of(r, records),
        0 <= k < records.len(),
    ensures
        r.top_models@.len() <= 10,
        r.top_models@.len() < 10 ==> exists|m: int|
            0 <= m < r.top_models@.len() && (#[trigger] r.top_models@[m]).model_name@
                == records[k].chosen_model@,
        exists|m: int|
            0 <= m < r.cost_breakdown_by_tier@.len() && (
            #[trigger] r.cost_breakdown_by_tier@[m]).tier@ == records[k].user_tier@,
{
    assert(lists_tier(r.cost_breakdown_by_tier@, records[k].user_tier@));
    if r.top_models@.len() < 10 {
        assert(lists_model(r.top_models@, records[k].chosen_model@));
    }
}

} // verus!
