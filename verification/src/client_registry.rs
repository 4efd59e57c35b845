//! Which client has which tier.
//!
//! Tiers come from a setting of the form `raw_key_1:pro,raw_key_2:enterprise`, whose keys are
//! hashed as the key store hashes them, and from rows of the `client_tiers` table. The rows are
//! registered last, so that they win over the setting.

use crate::digest::{sha256_hex, sha256_text};
use crate::rate_limiter::{
    RateLimiter, RateLimiterView, TierConfig, TierView, enterprise_tier, free_tier, pro_tier,
};
use crate::text::{
    first_index, law_splitting_once_is_at_the_first, lemma_first_index, lemma_first_index_unique,
    lemma_split_at, lowercase, pair_texts, same_text, split, split_once, split_text,
    split_text_once, texts, trim_text, trimmed,
};
use vstd::prelude::*;
use vstd::string::*;
use vstd::utf8::encode_utf8;

verus! {

/// A client and the tier it is given.
pub struct Assignment {
    pub client: Seq<char>,
    pub tier: TierView,
}

/// The tier of a normalised name; an unknown name stands for `pro`.
pub open spec fn tier_named(name: Seq<char>) -> TierView {
    if name == "free"@ {
        free_tier()
    } else if name == "enterprise"@ {
        enterprise_tier()
    } else {
        pro_tier()
    }
}

/// The tier that a text stands for: it is trimmed and put into lower case first.
pub open spec fn tier_of_text(s: Seq<char>) -> TierView {
    tier_named(lowercase(trimmed(s)))
}

/// The key and the tier of an entry `raw_key:tier` of the setting; nothing, if it is empty or has no
/// colon.
pub open spec fn entry_pair(entry: Seq<char>) -> Option<(Seq<char>, Seq<char>)> {
    match split_once(trimmed(entry), ':') {
        Some(pair) => Some((trimmed(pair.0), pair.1)),
        None => None,
    }
}

/// The keys and tiers of a list of entries, in their order.
pub open spec fn entry_pairs(entries: Seq<Seq<char>>) -> Seq<(Seq<char>, Seq<char>)>
    decreases entries.len(),
{
    if entries.len() == 0 {
        seq![]
    } else {
        let before = entry_pairs(entries.drop_last());
        match entry_pair(entries.last()) {
            Some(pair) => before.push(pair),
            None => before,
        }
    }
}

/// The keys and tiers of the whole setting: its entries are separated by commas.
pub open spec fn setting_pairs(raw: Seq<char>) -> Seq<(Seq<char>, Seq<char>)> {
    entry_pairs(split(raw, ','))
}

/// What the setting assigns: a client is known by the digest of its raw key.
pub open spec fn setting_assignments(raw: Seq<char>) -> Seq<Assignment> {
    setting_pairs(raw).map_values(|p: (Seq<char>, Seq<char>)| Assignment {
        client: sha256_text(encode_utf8(p.0)),
        tier: tier_of_text(p.1),
    })
}

/// What rows of client and tier assign, in their order.
pub open spec fn row_assignments(rows: Seq<(String, String)>) -> Seq<Assignment> {
    rows.map_values(|row: (String, String)| Assignment {
        client: row.0@,
        tier: tier_of_text(row.1@),
    })
}

/// A rate limiter after assignments have been registered one by one.
pub open spec fn all_registered(s: RateLimiterView, list: Seq<Assignment>) -> RateLimiterView
    decreases list.len(),
{
    if list.len() == 0 {
        s
    } else {
        all_registered(s, list.drop_last()).registered(list.last().client, list.last().tier)
    }
}

/// The tier of a name that has been trimmed and put into lower case.
pub fn tier_by_name(name: &str) -> (t: TierConfig)
    ensures
        t@ == tier_named(name@),
{
    proof {
        reveal_strlit("free");
        reveal_strlit("pro");
        reveal_strlit("enterprise");
        assert("free"@.len() == 4 && "pro"@.len() == 3 && "enterprise"@.len() == 10);
    }
    if same_text(name, "free") {
        TierConfig::free()
    } else if same_text(name, "pro") {
        TierConfig::pro()
    } else if same_text(name, "enterprise") {
        TierConfig::enterprise()
    } else {
        TierConfig::pro()
    }
}

/// The tier that a text stands for, in whatever case and with whatever white space around it. An
/// unknown tier stands for `pro`.
pub fn parse_tier(s: &str) -> (t: TierConfig)
    ensures
        t@ == tier_of_text(s@),
{
    let name = trim_text(s).as_str().to_lowercase();
    tier_by_name(name.as_str())
}

/// The raw keys and the tiers of the setting, in their order. Entries that are empty or have no
/// colon are passed over.
pub fn setting_entries(raw: &str) -> (pairs: Vec<(String, String)>)
    ensures
        pair_texts(pairs@) == setting_pairs(raw@),
{
    let entries = split_text(raw, ',');
    let ghost pieces = split(raw@, ',');
    let mut pairs: Vec<(String, String)> = Vec::new();
    let mut i: usize = 0;
    while i < entries.len()
        invariant
            texts(entries@) == pieces,
            i <= entries@.len(),
            pair_texts(pairs@) == entry_pairs(pieces.take(i as int)),
        decreases entries@.len() - i,
    {
        let ghost done = pair_texts(pairs@);
        let entry = trim_text(entries[i].as_str());
        assert(pieces[i as int] == entries@[i as int]@);
        assert(pieces.take(i + 1).drop_last() == pieces.take(i as int));
        assert(pieces.take(i + 1).last() == pieces[i as int]);
        if !entry.as_str().is_empty() {
            match split_text_once(entry.as_str(), ':') {
                Some((key, tier_text)) => {
                    let key = trim_text(key.as_str());
                    let ghost pair = (key@, tier_text@);
                    pairs.push((key, tier_text));
                    assert(pair_texts(pairs@) == done.push(pair));
                },
                None => {},
            }
        } else {
            assert(entry@.len() == 0);
            assert(split_once(entry@, ':') is None);
        }
        i = i + 1;
    }
    assert(pieces.take(pieces.len() as int) == pieces);
    pairs
}

/// Registers the clients of the setting and returns how many there were.
pub fn load_tiers_from_env(raw: &str, rate_limiter: &mut RateLimiter) -> (count: usize)
    requires
        old(rate_limiter).wf(),
    ensures
        final(rate_limiter).wf(),
        count == setting_pairs(raw@).len(),
        final(rate_limiter)@ == all_registered(old(rate_limiter)@, setting_assignments(raw@)),
{
    let pairs = setting_entries(raw);
    let ghost list = setting_assignments(raw@);
    let ghost before = rate_limiter@;
    let mut i: usize = 0;
    while i < pairs.len()
        invariant
            rate_limiter.wf(),
            pair_texts(pairs@) == setting_pairs(raw@),
            list == setting_assignments(raw@),
            i <= pairs@.len(),
            rate_limiter@ == all_registered(before, list.take(i as int)),
        decreases pairs@.len() - i,
    {
        let client_id = sha256_hex(pairs[i].0.as_str());
        let tier = parse_tier(pairs[i].1.as_str());
        rate_limiter.register(client_id.as_str(), tier);
        assert(pair_texts(pairs@)[i as int] == (pairs@[i as int].0@, pairs@[i as int].1@));
        assert(list.take(i + 1).drop_last() == list.take(i as int));
        assert(list.take(i + 1).last() == list[i as int]);
        i = i + 1;
    }
    assert(list.take(list.len() as int) == list);
    pairs.len()
}

/// Registers the clients of the table's rows and returns how many rows there were.
pub fn load_tiers_from_db(rows: &Vec<(String, String)>, rate_limiter: &mut RateLimiter) -> (count:
    usize)
    requires
        old(rate_limiter).wf(),
    ensures
        final(rate_limiter).wf(),
        count == rows@.len(),
        final(rate_limiter)@ == all_registered(old(rate_limiter)@, row_assignments(rows@)),
{
    let ghost list = row_assignments(rows@);
    let ghost before = rate_limiter@;
    let mut i: usize = 0;
    while i < rows.len()
        invariant
            rate_limiter.wf(),
            list == row_assignments(rows@),
            i <= rows@.len(),
            rate_limiter@ == all_registered(before, list.take(i as int)),
        decreases rows@.len() - i,
    {
        let tier = parse_tier(rows[i].1.as_str());
        rate_limiter.register(rows[i].0.as_str(), tier);
        assert(list.take(i + 1).drop_last() == list.take(i as int));
        assert(list.take(i + 1).last() == list[i as int]);
        i = i + 1;
    }
    assert(list.take(list.len() as int) == list);
    rows.len()
}

/// How many tiers were loaded from each source.
#[derive(Debug, Clone, Copy, PartialEq, Eq, Structural)]
pub struct LoadedTiers {
    pub from_env: usize,
    pub from_db: usize,
}

/// Sets the default tier and registers the clients of the setting and then those of the table, whose
/// rows are absent if it could not be read. Where a client stands in both, the table counts.
pub fn load_all_tiers(
    rate_limiter: &mut RateLimiter,
    env_tiers_raw: &str,
    db_rows: &Option<Vec<(String, String)>>,
    default_tier: TierConfig,
) -> (loaded: LoadedTiers)
    requires
        old(rate_limiter).wf(),
    ensures
        final(rate_limiter).wf(),
        final(rate_limiter)@ == ({
            let s = RateLimiterView { default_tier: default_tier@, ..old(rate_limiter)@ };
            let env = all_registered(s, setting_assignments(env_tiers_raw@));
            match db_rows {
                Some(rows) => all_registered(env, row_assignments(rows@)),
                None => env,
            }
        }),
        loaded.from_env == setting_pairs(env_tiers_raw@).len(),
        loaded.from_db == match db_rows {
            Some(rows) => rows@.len(),
            None => 0,
        },
{
    rate_limiter.set_default_tier(default_tier);
    let from_env = load_tiers_from_env(env_tiers_raw, rate_limiter);
    let from_db = match db_rows {
        Some(rows) => load_tiers_from_db(rows, rate_limiter),
        None => 0,
    };
    LoadedTiers { from_env, from_db }
}

/// The tier that a list gives a client: the last one counts. `None` if it does not speak of it.
pub open spec fn last_assigned(list: Seq<Assignment>, client: Seq<char>) -> Option<TierView>
    decreases list.len(),
{
    if list.len() == 0 {
        None
    } else if list.last().client == client {
        Some(list.last().tier)
    } else {
        last_assigned(list.drop_last(), client)
    }
}

/// A client's tier after a list of assignments is the last that the list gives it, and what it was
/// before if the list does not speak of it.
pub proof fn law_last_assignment_counts(
    s: RateLimiterView,
    list: Seq<Assignment>,
    client: Seq<char>,
)
    ensures
        match last_assigned(list, client) {
            Some(tier) => all_registered(s, list).tiers.dom().contains(client) && all_registered(
                s,
                list,
            ).tiers[client] == tier,
            None => all_registered(s, list).tiers.dom().contains(client)
                == s.tiers.dom().contains(client) && all_registered(s, list).tiers[client]
                == s.tiers[client],
        },
    decreases list.len(),
{
    if list.len() > 0 {
        law_last_assignment_counts(s, list.drop_last(), client);
    }
}

/// A client that stands in the table has the tier that the table gives it, whatever the setting
/// says; one that does not has the tier of the setting.
pub proof fn law_table_wins_over_setting(
    s: RateLimiterView,
    setting: Seq<Assignment>,
    table: Seq<Assignment>,
    client: Seq<char>,
)
    ensures
        ({
            let loaded = all_registered(all_registered(s, setting), table).tiers;
            match (last_assigned(table, client), last_assigned(setting, client)) {
                (Some(tier), _) => loaded.dom().contains(client) && loaded[client] == tier,
                (None, Some(tier)) => loaded.dom().contains(client) && loaded[client] == tier,
                (None, None) => loaded.dom().contains(client) == s.tiers.dom().contains(client),
            }
        }),
{
    law_last_assignment_counts(s, setting, client);
    law_last_assignment_counts(all_registered(s, setting), table, client);
}

/// The tier of each name; any other name stands for `pro`.
pub proof fn law_names_stand_for_tiers(name: Seq<char>)
    ensures
        tier_named("free"@).capacity == 10 && tier_named("free"@).name == "free"@,
        tier_named("pro"@).capacity == 100 && tier_named("pro"@).name == "pro"@,
        tier_named("enterprise"@).capacity == 1000 && tier_named("enterprise"@).name
            == "enterprise"@,
        name != "free"@ && name != "enterprise"@ ==> tier_named(name) == tier_named("pro"@),
{
    reveal_strlit("free");
    reveal_strlit("pro");
    reveal_strlit("enterprise");
    assert("free"@.len() == 4 && "pro"@.len() == 3 && "enterprise"@.len() == 10);
}

/// A tier is read without regard to case and to white space around it: texts that are the same but for
/// that stand for the same tier.
pub proof fn law_tiers_are_read_whatever_the_case(a: Seq<char>, b: Seq<char>)
    ensures
        lowercase(trimmed(a)) == lowercase(trimmed(b)) ==> tier_of_text(a) == tier_of_text(b),
        lowercase(trimmed(a)) == "free"@ ==> tier_of_text(a).capacity == 10,
        lowercase(trimmed(a)) == "pro"@ ==> tier_of_text(a).capacity == 100,
        lowercase(trimmed(a)) == "enterprise"@ ==> tier_of_text(a).capacity == 1000,
{
    law_names_stand_for_tiers(lowercase(trimmed(a)));
}

/// An entry without a comma holds a key and a tier if, trimmed, it has a colon: the key is what stands
/// before the first one, trimmed, and the tier what stands behind it. Any other holds nothing.
pub proof fn law_entries_hold_a_key_and_a_tier(
    entry: Seq<char>,
    key: Seq<char>,
    tier: Seq<char>,
)
    requires
        !entry.contains(','),
    ensures
        trimmed(entry) == key + seq![':'] + tier && !key.contains(':') ==> setting_pairs(entry)
            == seq![(trimmed(key), tier)],
        !trimmed(entry).contains(':') ==> setting_pairs(entry).len() == 0,
{
    lemma_first_index(entry, ',');
    let i = first_index(entry, ',');
    assert(i >= entry.len()) by {
        if i < entry.len() {
            assert(entry[i] == ',');
        }
    }
    assert(split(entry, ',') == seq![entry]);
    assert(seq![entry].drop_last() == Seq::<Seq<char>>::empty());
    reveal_with_fuel(entry_pairs, 2);
    let t = trimmed(entry);
    law_splitting_once_is_at_the_first(t, ':');
    if t == key + seq![':'] + tier && !key.contains(':') {
        let n = key.len() as int;
        assert(t[n] == ':');
        assert forall|j: int| 0 <= j < n implies t[j] != ':' by {
            assert(t[j] == key[j]);
            assert(key.contains(key[j]));
        }
        lemma_first_index_unique(t, ':', n);
        assert(t.take(n) == key);
        assert(t.skip(n + 1) == tier);
        assert(entry_pairs(seq![entry]) == Seq::empty().push((trimmed(key), tier)));
        assert(setting_pairs(entry) == seq![(trimmed(key), tier)]);
    }
}

/// The entries of a setting are separated by commas: those of two settings with a comma between them are
/// the entries of the first and then those of the second.
pub proof fn law_commas_separate_entries(first: Seq<char>, second: Seq<char>)
    ensures
        setting_pairs(first + seq![','] + second) == setting_pairs(first) + setting_pairs(second),
{
    lemma_split_concat(first, second);
    lemma_entry_pairs_concat(split(first, ','), split(second, ','));
}

proof fn lemma_split_concat(first: Seq<char>, second: Seq<char>)
    ensures
        split(first + seq![','] + second, ',') == split(first, ',') + split(second, ','),
    decreases first.len(),
{
    let whole = first + seq![','] + second;
    lemma_first_index(first, ',');
    let i = first_index(first, ',');
    if i >= first.len() {
        assert(!first.contains(',')) by {
            if first.contains(',') {
                let k = choose|k: int| 0 <= k < first.len() && first[k] == ',';
                assert(first[k] != ',');
            }
        }
        lemma_split_at(first, ',', second);
        assert(whole == first.push(',') + second);
        assert(split(first, ',') == seq![first]);
    } else {
        let head = first.take(i);
        let rest = first.skip(i + 1);
        assert(!head.contains(',')) by {
            if head.contains(',') {
                let k = choose|k: int| 0 <= k < head.len() && head[k] == ',';
                assert(first[k] == ',');
            }
        }
        lemma_split_concat(rest, second);
        assert(first == head.push(',') + rest);
        assert(whole == head.push(',') + (rest + seq![','] + second));
        lemma_split_at(head, ',', rest + seq![','] + second);
        lemma_split_at(head, ',', rest);
        assert(seq![head] + (split(rest, ',') + split(second, ',')) == (seq![head] + split(
            rest,
            ',',
        )) + split(second, ','));
    }
}

proof fn lemma_entry_pairs_concat(a: Seq<Seq<char>>, b: Seq<Seq<char>>)
    ensures
        entry_pairs(a + b) == entry_pairs(a) + entry_pairs(b),
    decreases b.len(),
{
    if b.len() == 0 {
        assert(a + b == a);
        assert(entry_pairs(a) + entry_pairs(b) == entry_pairs(a));
    } else {
        lemma_entry_pairs_concat(a, b.drop_last());
        assert((a + b).drop_last() == a + b.drop_last());
        assert((a + b).last() == b.last());
        assert(entry_pairs(a + b) == entry_pairs(a) + entry_pairs(b));
    }
}

/// A client of the setting is known by the digest of its raw key, and one of the table by its id as it
/// stands there; each is given the tier that stands beside it.
pub proof fn law_clients_are_known_by_their_digest(
    raw: Seq<char>,
    rows: Seq<(String, String)>,
    i: int,
)
    ensures
        setting_assignments(raw).len() == setting_pairs(raw).len(),
        0 <= i < setting_pairs(raw).len() ==> setting_assignments(raw)[i].client == sha256_text(
            encode_utf8(setting_pairs(raw)[i].0),
        ) && setting_assignments(raw)[i].tier == tier_of_text(setting_pairs(raw)[i].1),
        row_assignments(rows).len() == rows.len(),
        0 <= i < rows.len() ==> row_assignments(rows)[i].client == rows[i].0@ && row_assignments(
            rows,
        )[i].tier == tier_of_text(rows[i].1@),
{
}

/// Assignments are registered one by one, in their order.
pub proof fn law_assignments_are_registered_in_order(
    s: RateLimiterView,
    list: Seq<Assignment>,
    next: Assignment,
)
    ensures
        all_registered(s, Seq::<Assignment>::empty()) == s,
        all_registered(s, list.push(next)) == all_registered(s, list).registered(
            next.client,
            next.tier,
        ),
{
    assert(list.push(next).drop_last() == list);
}

} // verus!
