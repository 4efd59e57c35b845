//! The semantic cache: answers to earlier prompts, found again by the prompt itself or by its
//! nearness to another.
//!
//! Every entry belongs to one client, and every query asks for one client's entries alone. The
//! database and the embedding model are asked by the program around the library, one question at a
//! time; what is asked, and what is made of the answers, is decided here.

use crate::digest::{sha256_hex, sha256_text};
use crate::text::{characters, first_index, lemma_first_index_unique, substring};
use vstd::prelude::*;
use vstd::string::*;
use vstd::utf8::encode_utf8;

verus! {

/// How similar a prompt must be to an earlier one, as the bits of the double 0.96.
pub const SIMILARITY_THRESHOLD: u64 = 4606822130829827768;

/// The similarity of a prompt to itself, as the bits of the double 1.
pub const EXACT_SIMILARITY: u64 = 4607182418800017408;

/// How many characters of a prompt are kept for people to read.
pub const PREVIEW_CHARS: usize = 200;

/// The text whose digest is the key of an entry: client, model and prompt, with a NUL between them.
pub open spec fn key_text(client: Seq<char>, model: Seq<char>, prompt: Seq<char>) -> Seq<char> {
    client.push('\0') + (model.push('\0') + prompt)
}

/// The key of an entry.
pub open spec fn cache_key(client: Seq<char>, model: Seq<char>, prompt: Seq<char>) -> Seq<char> {
    sha256_text(encode_utf8(key_text(client, model, prompt)))
}

/// The text whose digest is the key of an entry.
pub fn cache_key_text(client_id: &str, model: &str, prompt: &str) -> (s: String)
    ensures
        s@ == key_text(client_id@, model@, prompt@),
{
    let mut s = client_id.to_string();
    s.push('\0');
    s.append(model);
    s.push('\0');
    s.append(prompt);
    assert(s@ == key_text(client_id@, model@, prompt@));
    s
}

/// The key of an entry: two clients that send the same prompt to the same model have different
/// entries.
pub fn cache_key_hash(client_id: &str, model: &str, prompt: &str) -> (s: String)
    ensures
        s@ == cache_key(client_id@, model@, prompt@),
        s@ == sha256_text(
            encode_utf8(client_id@ + seq!['\0'] + model@ + seq!['\0'] + prompt@),
        ),
{
    proof {
        law_keys_digest_client_model_and_prompt(client_id@, model@, prompt@);
    }
    let text = cache_key_text(client_id, model, prompt);
    sha256_hex(text.as_str())
}

/// The part of a prompt that is kept for people to read.
pub open spec fn preview(prompt: Seq<char>) -> Seq<char> {
    if prompt.len() <= PREVIEW_CHARS {
        prompt
    } else {
        prompt.take(PREVIEW_CHARS as int)
    }
}

/// The first characters of a prompt.
pub fn prompt_preview(prompt: &str) -> (s: String)
    ensures
        s@ == preview(prompt@),
{
    let v = characters(prompt);
    let n: usize = if v.len() <= PREVIEW_CHARS {
        v.len()
    } else {
        PREVIEW_CHARS
    };
    let s = substring(&v, 0, n);
    assert(s@ == preview(prompt@));
    s
}

/// An answer found in the cache.
#[derive(Debug)]
pub struct CacheHit {
    pub cached_response: String,
    pub model_used: String,
    /// How similar the prompt is to the entry's, as the bits of a double.
    pub similarity: u64,
}

/// A query for the entry of a key that belongs to a client. It also names the entry whose use is
/// to be counted.
#[derive(Debug)]
pub struct ExactQuery {
    pub prompt_hash: String,
    pub client_id: String,
}

/// A query for the entry nearest to a prompt, among those of a client and a model that are similar
/// enough.
#[derive(Debug)]
pub struct NearestQuery {
    pub client_id: String,
    pub model: String,
    /// The least similarity, as the bits of a double.
    pub threshold: u64,
}

/// An answer that was found, and the entry whose use is to be counted.
#[derive(Debug)]
pub struct Found {
    pub hit: CacheHit,
    pub touch: ExactQuery,
}

/// An entry to be stored, with the prompt that is to be embedded for it. An entry of the same key
/// and client stays as it is.
#[derive(Debug)]
pub struct CacheEntry {
    pub prompt_hash: String,
    pub client_id: String,
    pub prompt: String,
    pub prompt_preview: String,
    pub cached_response: String,
    pub model_used: String,
}

/// A row that a query for the nearest entry returns.
#[derive(Debug)]
pub struct NearestRow {
    pub cached_response: String,
    pub model_used: String,
    /// As the bits of a double.
    pub similarity: u64,
    pub prompt_hash: String,
}

/// The query is for the entry of a client, a model and a prompt.
pub open spec fn asks_exact(
    q: ExactQuery,
    client: Seq<char>,
    model: Seq<char>,
    prompt: Seq<char>,
) -> bool {
    q.prompt_hash@ == cache_key(client, model, prompt) && q.client_id@ == client
}

/// The query is for the nearest entry of a client and a model that is similar enough.
pub open spec fn asks_nearest(q: NearestQuery, client: Seq<char>, model: Seq<char>) -> bool {
    q.client_id@ == client && q.model@ == model && q.threshold == SIMILARITY_THRESHOLD
}

/// The entry holds an answer to a client's prompt by a model.
pub open spec fn stores(
    e: CacheEntry,
    client: Seq<char>,
    model: Seq<char>,
    prompt: Seq<char>,
    response: Seq<char>,
) -> bool {
    &&& e.prompt_hash@ == cache_key(client, model, prompt)
    &&& e.client_id@ == client
    &&& e.prompt@ == prompt
    &&& e.prompt_preview@ == preview(prompt)
    &&& e.cached_response@ == response
    &&& e.model_used@ == model
}

/// Whether the cache is in use.
#[derive(Debug)]
pub struct SemanticCache {
    has_embedder: bool,
    enabled: bool,
}

impl SemanticCache {
    /// Whether an embedding model is at hand.
    pub closed spec fn has_embedder(&self) -> bool {
        self.has_embedder
    }

    /// Whether the cache is asked and filled.
    pub closed spec fn enabled(&self) -> bool {
        self.enabled
    }

    /// A cache that is in use exactly if an embedding model is at hand.
    pub fn new(has_embedder: bool) -> (c: SemanticCache)
        ensures
            c.has_embedder() == has_embedder,
            c.enabled() == has_embedder,
    {
        SemanticCache { has_embedder, enabled: has_embedder }
    }

    /// Takes the cache out of use.
    pub fn disable(&mut self)
        ensures
            !final(self).enabled(),
            final(self).has_embedder() == old(self).has_embedder(),
    {
        self.enabled = false;
    }

    /// The first question of a lookup: the entry of this very prompt. None if the cache is not in
    /// use: the lookup misses.
    pub fn lookup(&self, client_id: &str, prompt: &str, model: &str) -> (r: Option<ExactQuery>)
        ensures
            r is Some <==> self.enabled(),
            r matches Some(q) ==> asks_exact(q, client_id@, model@, prompt@),
    {
        if !self.enabled {
            return None;
        }
        Some(
            ExactQuery {
                prompt_hash: cache_key_hash(client_id, model, prompt),
                client_id: client_id.to_string(),
            },
        )
    }

    /// What is stored of an answer; nothing if the cache is not in use.
    pub fn store(
        &self,
        client_id: String,
        prompt: String,
        cached_response: String,
        model_used: String,
    ) -> (r: Option<CacheEntry>)
        ensures
            r is Some <==> self.enabled() && self.has_embedder(),
            r matches Some(e) ==> stores(
                e,
                client_id@,
                model_used@,
                prompt@,
                cached_response@,
            ),
    {
        if !self.enabled || !self.has_embedder {
            return None;
        }
        let prompt_hash = cache_key_hash(client_id.as_str(), model_used.as_str(), prompt.as_str());
        let prompt_preview = prompt_preview(prompt.as_str());
        Some(
            CacheEntry {
                prompt_hash,
                client_id,
                prompt,
                prompt_preview,
                cached_response,
                model_used,
            },
        )
    }
}

/// What is found by the first question: the row, with full similarity.
pub open spec fn found_exact(
    query: ExactQuery,
    row: Option<(String, String)>,
    r: Option<Found>,
) -> bool {
    &&& r is Some <==> row is Some
    &&& r matches Some(f) ==> row == Some((f.hit.cached_response, f.hit.model_used))
    &&& r matches Some(f) ==> f.hit.similarity == EXACT_SIMILARITY && f.touch == query
}

/// What is found by the second question: the row, with its similarity.
pub open spec fn found_nearest(
    query: NearestQuery,
    row: Option<NearestRow>,
    r: Option<Found>,
) -> bool {
    &&& r is Some <==> row is Some
    &&& r matches Some(f) ==> {
        &&& f.hit.cached_response == row->0.cached_response
        &&& f.hit.model_used == row->0.model_used
        &&& f.hit.similarity == row->0.similarity
        &&& f.touch.prompt_hash == row->0.prompt_hash
        &&& f.touch.client_id == query.client_id
    }
}

/// What is made of the answer to the first question. A row is a hit of full similarity, whose use
/// is counted; without one the prompt is to be embedded.
pub fn after_exact(query: ExactQuery, row: Option<(String, String)>) -> (r: Option<Found>)
    ensures
        found_exact(query, row, r),
{
    match row {
        Some((cached_response, model_used)) => Some(
            Found {
                hit: CacheHit { cached_response, model_used, similarity: EXACT_SIMILARITY },
                touch: query,
            },
        ),
        None => None,
    }
}

/// The second question of a lookup: the nearest entry of the client and the model. None if the
/// prompt could not be embedded: the lookup misses.
pub fn after_embedding(client_id: &str, model: &str, embedded: bool) -> (r: Option<NearestQuery>)
    ensures
        r is Some <==> embedded,
        r matches Some(q) ==> asks_nearest(q, client_id@, model@),
{
    if !embedded {
        return None;
    }
    Some(
        NearestQuery {
            client_id: client_id.to_string(),
            model: model.to_string(),
            threshold: SIMILARITY_THRESHOLD,
        },
    )
}

/// What is made of the answer to the second question. A row is a hit, and the use of the entry that
/// was found is counted; without one the lookup misses.
pub fn after_nearest(query: NearestQuery, row: Option<NearestRow>) -> (r: Option<Found>)
    ensures
        found_nearest(query, row, r),
{
    match row {
        Some(row) => Some(
            Found {
                hit: CacheHit {
                    cached_response: row.cached_response,
                    model_used: row.model_used,
                    similarity: row.similarity,
                },
                touch: ExactQuery { prompt_hash: row.prompt_hash, client_id: query.client_id },
            },
        ),
        None => None,
    }
}

/// Whether an entry answers a query for a key: it has that key and belongs to that client.
pub open spec fn answers_exact(e: CacheEntry, q: ExactQuery) -> bool {
    e.prompt_hash@ == q.prompt_hash@ && e.client_id@ == q.client_id@
}

/// Whether an entry may answer a query for the nearest one: it belongs to that client and that
/// model.
pub open spec fn answers_nearest(e: CacheEntry, q: NearestQuery) -> bool {
    e.client_id@ == q.client_id@ && e.model_used@ == q.model@
}

/// No client is ever served another's entry: an entry stored for one client answers neither
/// question of a lookup by another, whatever the models and the prompts.
pub proof fn law_clients_do_not_share_entries(
    e: CacheEntry,
    owner: Seq<char>,
    stored_model: Seq<char>,
    stored_prompt: Seq<char>,
    response: Seq<char>,
    exact: ExactQuery,
    nearest: NearestQuery,
    client: Seq<char>,
    model: Seq<char>,
    prompt: Seq<char>,
)
    requires
        stores(e, owner, stored_model, stored_prompt, response),
        asks_exact(exact, client, model, prompt),
        asks_nearest(nearest, client, model),
        owner != client,
    ensures
        !answers_exact(e, exact),
        !answers_nearest(e, nearest),
{
}

/// What was stored for a client, a model and a prompt is found again by both questions of the same
/// client's lookup of the same prompt for the same model.
pub proof fn law_stored_entry_is_found_again(
    e: CacheEntry,
    exact: ExactQuery,
    nearest: NearestQuery,
    client: Seq<char>,
    model: Seq<char>,
    prompt: Seq<char>,
    response: Seq<char>,
)
    requires
        stores(e, client, model, prompt, response),
        asks_exact(exact, client, model, prompt),
        asks_nearest(nearest, client, model),
    ensures
        answers_exact(e, exact),
        answers_nearest(e, nearest),
{
}

/// A row of the table, as a lookup sees it.
pub struct StoredRow {
    pub prompt_hash: Seq<char>,
    pub client_id: Seq<char>,
    pub model_used: Seq<char>,
    pub cached_response: Seq<char>,
    /// How similar the row's prompt is to the one that is looked up, as the bits of a double; nothing
    /// if that is below zero. Bits of doubles that are not below zero are ordered as the numbers are.
    pub similarity: Option<u64>,
}

/// A hit by its contents.
pub struct HitView {
    pub cached_response: Seq<char>,
    pub model_used: Seq<char>,
    pub similarity: u64,
}

impl View for CacheHit {
    type V = HitView;

    open spec fn view(&self) -> HitView {
        HitView {
            cached_response: self.cached_response@,
            model_used: self.model_used@,
            similarity: self.similarity,
        }
    }
}

/// The row of a client that has a key.
pub open spec fn has_key(r: StoredRow, client: Seq<char>, hash: Seq<char>) -> bool {
    r.client_id == client && r.prompt_hash == hash
}

/// A row of a client and a model that is similar enough.
pub open spec fn near_enough(
    r: StoredRow,
    client: Seq<char>,
    model: Seq<char>,
    threshold: u64,
) -> bool {
    &&& r.client_id == client
    &&& r.model_used == model
    &&& r.similarity matches Some(s) && s >= threshold
}

/// A row of the table than which no row of the client and the model is more similar.
pub open spec fn is_nearest(
    table: Set<StoredRow>,
    r: StoredRow,
    client: Seq<char>,
    model: Seq<char>,
    threshold: u64,
) -> bool {
    &&& table.contains(r)
    &&& near_enough(r, client, model, threshold)
    &&& forall|o: StoredRow| #[trigger]
        table.contains(o) && near_enough(o, client, model, threshold) ==> o.similarity->0
            <= r.similarity->0
}

/// What the database may answer to the first question: a row of the key and the client, if there is
/// one; nothing, if there is none or the table could not be read.
pub open spec fn exact_answer(
    table: Set<StoredRow>,
    q: ExactQuery,
    readable: bool,
    row: Option<(String, String)>,
) -> bool {
    match row {
        Some(pair) => readable && exists|r: StoredRow| #[trigger]
            table.contains(r) && has_key(r, q.client_id@, q.prompt_hash@) && r.cached_response
                == pair.0@ && r.model_used == pair.1@,
        None => readable ==> forall|r: StoredRow| #[trigger]
            table.contains(r) ==> !has_key(r, q.client_id@, q.prompt_hash@),
    }
}

/// What the database may answer to the second question: a nearest row, if one is similar enough;
/// nothing, if there is none or the table could not be read.
pub open spec fn nearest_answer(
    table: Set<StoredRow>,
    q: NearestQuery,
    readable: bool,
    row: Option<NearestRow>,
) -> bool {
    match row {
        Some(row) => readable && exists|r: StoredRow| #[trigger]
            is_nearest(table, r, q.client_id@, q.model@, q.threshold) && r.cached_response
                == row.cached_response@ && r.model_used == row.model_used@ && r.similarity == Some(
                row.similarity,
            ),
        None => readable ==> forall|r: StoredRow| #[trigger]
            table.contains(r) ==> !near_enough(r, q.client_id@, q.model@, q.threshold),
    }
}

/// What a lookup may come to: the row of the prompt's own key with full similarity, if it can be
/// read; else, if the prompt can be embedded and the table read, a nearest row of the client and the
/// model that is similar enough; else nothing. A cache that is not in use finds nothing.
pub open spec fn lookup_result(
    table: Set<StoredRow>,
    client: Seq<char>,
    model: Seq<char>,
    prompt: Seq<char>,
    enabled: bool,
    exact_readable: bool,
    embedded: bool,
    nearest_readable: bool,
    hit: Option<HitView>,
) -> bool {
    let key = cache_key(client, model, prompt);
    let exact = exact_readable && exists|r: StoredRow| #[trigger]
        table.contains(r) && has_key(r, client, key);
    let near = embedded && nearest_readable && exists|r: StoredRow| #[trigger]
        table.contains(r) && near_enough(r, client, model, SIMILARITY_THRESHOLD);
    match hit {
        Some(h) => enabled && if exact {
            exists|r: StoredRow| #[trigger]
                table.contains(r) && has_key(r, client, key) && h == (HitView {
                    cached_response: r.cached_response,
                    model_used: r.model_used,
                    similarity: EXACT_SIMILARITY,
                })
        } else {
            near && exists|r: StoredRow| #[trigger]
                is_nearest(table, r, client, model, SIMILARITY_THRESHOLD) && h == (HitView {
                    cached_response: r.cached_response,
                    model_used: r.model_used,
                    similarity: r.similarity->0,
                })
        },
        None => !enabled || (!exact && !near),
    }
}

/// The hit of what was found.
pub open spec fn hit_of(f: Option<Found>) -> Option<HitView> {
    match f {
        Some(f) => Some(f.hit@),
        None => None,
    }
}

/// The steps of a lookup come to what a lookup may come to, whatever the database answers: the first
/// question and its answer, and, where that finds nothing and the prompt was embedded, the second.
pub proof fn law_lookup_steps_make_a_lookup(
    table: Set<StoredRow>,
    client: Seq<char>,
    model: Seq<char>,
    prompt: Seq<char>,
    exact: ExactQuery,
    exact_readable: bool,
    exact_row: Option<(String, String)>,
    exact_found: Option<Found>,
    embedded: bool,
    nearest: NearestQuery,
    nearest_readable: bool,
    nearest_row: Option<NearestRow>,
    nearest_found: Option<Found>,
)
    requires
        asks_exact(exact, client, model, prompt),
        exact_answer(table, exact, exact_readable, exact_row),
        found_exact(exact, exact_row, exact_found),
        asks_nearest(nearest, client, model),
        nearest_answer(table, nearest, nearest_readable, nearest_row),
        found_nearest(nearest, nearest_row, nearest_found),
    ensures
        lookup_result(
            table,
            client,
            model,
            prompt,
            true,
            exact_readable,
            embedded,
            nearest_readable,
            if exact_found is Some {
                hit_of(exact_found)
            } else if embedded {
                hit_of(nearest_found)
            } else {
                None
            },
        ),
{
    let key = cache_key(client, model, prompt);
    if exact_found is Some {
        let pair = exact_row->0;
        let r = choose|r: StoredRow| #[trigger]
            table.contains(r) && has_key(r, client, key) && r.cached_response == pair.0@
                && r.model_used == pair.1@;
        assert(table.contains(r));
    } else if embedded && nearest_found is Some {
        let row = nearest_row->0;
        let r = choose|r: StoredRow| #[trigger]
            is_nearest(table, r, client, model, SIMILARITY_THRESHOLD) && r.cached_response
                == row.cached_response@ && r.model_used == row.model_used@ && r.similarity == Some(
                row.similarity,
            );
        assert(is_nearest(table, r, client, model, SIMILARITY_THRESHOLD));
        assert(table.contains(r));
    }
}

/// Two tables hold the same rows of a client.
pub open spec fn same_rows_of(t1: Set<StoredRow>, t2: Set<StoredRow>, client: Seq<char>) -> bool {
    forall|r: StoredRow|
        r.client_id == client ==> (#[trigger] t1.contains(r) <==> #[trigger] t2.contains(r))
}

/// A lookup depends on the client's own rows alone: on two tables that hold the same rows of the
/// client it may come to the same, whatever rows of other clients they hold.
pub proof fn law_lookup_depends_on_own_rows(
    t1: Set<StoredRow>,
    t2: Set<StoredRow>,
    client: Seq<char>,
    model: Seq<char>,
    prompt: Seq<char>,
    enabled: bool,
    exact_readable: bool,
    embedded: bool,
    nearest_readable: bool,
    hit: Option<HitView>,
)
    requires
        same_rows_of(t1, t2, client),
    ensures
        lookup_result(
            t1,
            client,
            model,
            prompt,
            enabled,
            exact_readable,
            embedded,
            nearest_readable,
            hit,
        ) <==> lookup_result(
            t2,
            client,
            model,
            prompt,
            enabled,
            exact_readable,
            embedded,
            nearest_readable,
            hit,
        ),
{
    if lookup_result(
        t1,
        client,
        model,
        prompt,
        enabled,
        exact_readable,
        embedded,
        nearest_readable,
        hit,
    ) {
        lemma_same_lookup(
            t1,
            t2,
            client,
            model,
            prompt,
            enabled,
            exact_readable,
            embedded,
            nearest_readable,
            hit,
        );
    }
    if lookup_result(
        t2,
        client,
        model,
        prompt,
        enabled,
        exact_readable,
        embedded,
        nearest_readable,
        hit,
    ) {
        lemma_same_lookup(
            t2,
            t1,
            client,
            model,
            prompt,
            enabled,
            exact_readable,
            embedded,
            nearest_readable,
            hit,
        );
    }
}

proof fn lemma_same_lookup(
    t1: Set<StoredRow>,
    t2: Set<StoredRow>,
    client: Seq<char>,
    model: Seq<char>,
    prompt: Seq<char>,
    enabled: bool,
    exact_readable: bool,
    embedded: bool,
    nearest_readable: bool,
    hit: Option<HitView>,
)
    requires
        same_rows_of(t1, t2, client),
        lookup_result(
            t1,
            client,
            model,
            prompt,
            enabled,
            exact_readable,
            embedded,
            nearest_readable,
            hit,
        ),
    ensures
        lookup_result(
            t2,
            client,
            model,
            prompt,
            enabled,
            exact_readable,
            embedded,
            nearest_readable,
            hit,
        ),
{
    let key = cache_key(client, model, prompt);
    assert forall|r: StoredRow| r.client_id == client implies t1.contains(r) == t2.contains(r) by {}
    assert((exists|r: StoredRow| #[trigger] t1.contains(r) && has_key(r, client, key)) <==> (exists|
        r: StoredRow,
    | #[trigger]
        t2.contains(r) && has_key(r, client, key))) by {
        if exists|r: StoredRow| #[trigger] t1.contains(r) && has_key(r, client, key) {
            let r = choose|r: StoredRow| #[trigger] t1.contains(r) && has_key(r, client, key);
            assert(t2.contains(r));
        }
        if exists|r: StoredRow| #[trigger] t2.contains(r) && has_key(r, client, key) {
            let r = choose|r: StoredRow| #[trigger] t2.contains(r) && has_key(r, client, key);
            assert(t1.contains(r));
        }
    }
    assert((exists|r: StoredRow| #[trigger]
        t1.contains(r) && near_enough(r, client, model, SIMILARITY_THRESHOLD)) <==> (exists|
        r: StoredRow,
    | #[trigger]
        t2.contains(r) && near_enough(r, client, model, SIMILARITY_THRESHOLD))) by {
        if exists|r: StoredRow| #[trigger]
            t1.contains(r) && near_enough(r, client, model, SIMILARITY_THRESHOLD) {
            let r = choose|r: StoredRow| #[trigger]
                t1.contains(r) && near_enough(r, client, model, SIMILARITY_THRESHOLD);
            assert(t2.contains(r));
        }
        if exists|r: StoredRow| #[trigger]
            t2.contains(r) && near_enough(r, client, model, SIMILARITY_THRESHOLD) {
            let r = choose|r: StoredRow| #[trigger]
                t2.contains(r) && near_enough(r, client, model, SIMILARITY_THRESHOLD);
            assert(t1.contains(r));
        }
    }
    assert forall|r: StoredRow| is_nearest(t1, r, client, model, SIMILARITY_THRESHOLD) implies
        #[trigger] is_nearest(t2, r, client, model, SIMILARITY_THRESHOLD) by {
        assert(t1.contains(r));
        assert(t2.contains(r));
        assert forall|o: StoredRow| #[trigger]
            t2.contains(o) && near_enough(o, client, model, SIMILARITY_THRESHOLD) implies
            o.similarity->0 <= r.similarity->0 by {
            assert(t1.contains(o));
        }
    }
    if hit is Some {
        let h = hit->0;
        if exact_readable && exists|r: StoredRow| #[trigger]
            t1.contains(r) && has_key(r, client, key) {
            let r = choose|r: StoredRow| #[trigger]
                t1.contains(r) && has_key(r, client, key) && h == (HitView {
                    cached_response: r.cached_response,
                    model_used: r.model_used,
                    similarity: EXACT_SIMILARITY,
                });
            assert(t2.contains(r));
        } else {
            let r = choose|r: StoredRow| #[trigger]
                is_nearest(t1, r, client, model, SIMILARITY_THRESHOLD) && h == (HitView {
                    cached_response: r.cached_response,
                    model_used: r.model_used,
                    similarity: r.similarity->0,
                });
            assert(is_nearest(t2, r, client, model, SIMILARITY_THRESHOLD));
        }
    }
}

/// The row of an entry, as a lookup sees it to whose prompt the entry's has this similarity.
pub open spec fn row_of(e: CacheEntry, similarity: Option<u64>) -> StoredRow {
    StoredRow {
        prompt_hash: e.prompt_hash@,
        client_id: e.client_id@,
        model_used: e.model_used@,
        cached_response: e.cached_response@,
        similarity,
    }
}

/// The table after a row is stored: a row of the same key and client stays as it is, and the new one
/// is dropped.
pub open spec fn after_store(table: Set<StoredRow>, row: StoredRow) -> Set<StoredRow> {
    if exists|r: StoredRow| #[trigger]
        table.contains(r) && has_key(r, row.client_id, row.prompt_hash) {
        table
    } else {
        table.insert(row)
    }
}

/// The first answer that is stored under a key stays: whatever is stored under it later, a lookup of
/// the same client, model and prompt gives the first, with full similarity, wherever the table can be
/// read.
pub proof fn law_first_answer_stays(
    table: Set<StoredRow>,
    first: StoredRow,
    second: StoredRow,
    client: Seq<char>,
    model: Seq<char>,
    prompt: Seq<char>,
    embedded: bool,
    nearest_readable: bool,
    hit: Option<HitView>,
)
    requires
        has_key(first, client, cache_key(client, model, prompt)),
        has_key(second, client, cache_key(client, model, prompt)),
        forall|r: StoredRow| #[trigger]
            table.contains(r) ==> !has_key(r, client, cache_key(client, model, prompt)),
        lookup_result(
            after_store(after_store(table, first), second),
            client,
            model,
            prompt,
            true,
            true,
            embedded,
            nearest_readable,
            hit,
        ),
    ensures
        after_store(after_store(table, first), second) == after_store(table, first),
        hit == Some(
            HitView {
                cached_response: first.cached_response,
                model_used: first.model_used,
                similarity: EXACT_SIMILARITY,
            },
        ),
{
    let key = cache_key(client, model, prompt);
    let one = after_store(table, first);
    assert(one == table.insert(first));
    assert(one.contains(first));
    assert(after_store(one, second) == one);
    assert forall|r: StoredRow| #[trigger] one.contains(r) && has_key(r, client, key) implies r
        == first by {
        assert(r == first || table.contains(r));
    }
}

/// A row that is in the table stays there, whatever is stored.
pub proof fn law_stored_rows_stay(table: Set<StoredRow>, row: StoredRow, kept: StoredRow)
    requires
        table.contains(kept),
    ensures
        after_store(table, row).contains(kept),
{
}

/// Whatever a lookup finds is the answer of a row of the client's own: that of the prompt's own key,
/// or a nearest one of the model that is similar enough.
pub proof fn law_hits_come_from_own_rows(
    table: Set<StoredRow>,
    client: Seq<char>,
    model: Seq<char>,
    prompt: Seq<char>,
    enabled: bool,
    exact_readable: bool,
    embedded: bool,
    nearest_readable: bool,
    hit: HitView,
)
    requires
        lookup_result(
            table,
            client,
            model,
            prompt,
            enabled,
            exact_readable,
            embedded,
            nearest_readable,
            Some(hit),
        ),
    ensures
        enabled,
        exists|r: StoredRow|
            {
                &&& #[trigger] table.contains(r)
                &&& r.client_id == client
                &&& r.cached_response == hit.cached_response
                &&& r.model_used == hit.model_used
                &&& (r.prompt_hash == cache_key(client, model, prompt) && hit.similarity
                    == EXACT_SIMILARITY) || (is_nearest(
                    table,
                    r,
                    client,
                    model,
                    SIMILARITY_THRESHOLD,
                ) && r.similarity == Some(hit.similarity))
            },
{
    let key = cache_key(client, model, prompt);
    if exact_readable && exists|r: StoredRow| #[trigger]
        table.contains(r) && has_key(r, client, key) {
        let r = choose|r: StoredRow| #[trigger]
            table.contains(r) && has_key(r, client, key) && hit == (HitView {
                cached_response: r.cached_response,
                model_used: r.model_used,
                similarity: EXACT_SIMILARITY,
            });
        assert(table.contains(r));
    } else {
        let r = choose|r: StoredRow| #[trigger]
            is_nearest(table, r, client, model, SIMILARITY_THRESHOLD) && hit == (HitView {
                cached_response: r.cached_response,
                model_used: r.model_used,
                similarity: r.similarity->0,
            });
        assert(table.contains(r));
    }
}

/// The bytes that are digested tell the client, the model and the prompt apart, as long as neither
/// the client's id nor the model's holds a NUL.
pub proof fn law_key_bytes_tell_entries_apart(
    client1: Seq<char>,
    model1: Seq<char>,
    prompt1: Seq<char>,
    client2: Seq<char>,
    model2: Seq<char>,
    prompt2: Seq<char>,
)
    requires
        !client1.contains('\0'),
        !model1.contains('\0'),
        !client2.contains('\0'),
        !model2.contains('\0'),
        encode_utf8(key_text(client1, model1, prompt1)) == encode_utf8(
            key_text(client2, model2, prompt2),
        ),
    ensures
        client1 == client2,
        model1 == model2,
        prompt1 == prompt2,
{
    let a = key_text(client1, model1, prompt1);
    let b = key_text(client2, model2, prompt2);
    vstd::utf8::encode_utf8_decode_utf8(a);
    vstd::utf8::encode_utf8_decode_utf8(b);
    assert(a == b);
    lemma_head_and_tail(client1, model1.push('\0') + prompt1);
    lemma_head_and_tail(client2, model2.push('\0') + prompt2);
    lemma_head_and_tail(model1, prompt1);
    lemma_head_and_tail(model2, prompt2);
}

/// The bytes that the key of an entry is the digest of: the client, a NUL, the model, a NUL and the
/// whole prompt.
pub proof fn law_keys_digest_client_model_and_prompt(
    client: Seq<char>,
    model: Seq<char>,
    prompt: Seq<char>,
)
    ensures
        cache_key(client, model, prompt) == sha256_text(
            encode_utf8(client + seq!['\0'] + model + seq!['\0'] + prompt),
        ),
{
    assert(key_text(client, model, prompt) == client + seq!['\0'] + model + seq!['\0'] + prompt);
}

/// The digested bytes of two keys are equal only if clients, models and prompts are, as long as
/// neither a client's id nor a model's holds a NUL.
pub proof fn law_digested_bytes_determine_the_entry(
    client1: Seq<char>,
    model1: Seq<char>,
    prompt1: Seq<char>,
    client2: Seq<char>,
    model2: Seq<char>,
    prompt2: Seq<char>,
)
    requires
        !client1.contains('\0'),
        !model1.contains('\0'),
        !client2.contains('\0'),
        !model2.contains('\0'),
    ensures
        exists|bytes1: Seq<u8>, bytes2: Seq<u8>|
            {
                &&& cache_key(client1, model1, prompt1) == #[trigger] sha256_text(bytes1)
                &&& cache_key(client2, model2, prompt2) == #[trigger] sha256_text(bytes2)
                &&& bytes1 == bytes2 <==> client1 == client2 && model1 == model2 && prompt1
                    == prompt2
            },
{
    let bytes1 = encode_utf8(client1 + seq!['\0'] + model1 + seq!['\0'] + prompt1);
    let bytes2 = encode_utf8(client2 + seq!['\0'] + model2 + seq!['\0'] + prompt2);
    law_keys_digest_client_model_and_prompt(client1, model1, prompt1);
    law_keys_digest_client_model_and_prompt(client2, model2, prompt2);
    assert(key_text(client1, model1, prompt1) == client1 + seq!['\0'] + model1 + seq!['\0']
        + prompt1);
    assert(key_text(client2, model2, prompt2) == client2 + seq!['\0'] + model2 + seq!['\0']
        + prompt2);
    if bytes1 == bytes2 {
        law_key_bytes_tell_entries_apart(client1, model1, prompt1, client2, model2, prompt2);
    }
    assert(cache_key(client1, model1, prompt1) == sha256_text(bytes1));
    assert(cache_key(client2, model2, prompt2) == sha256_text(bytes2));
}

/// An entry answers the exact query of its own prompt and model alone, unless the two texts that are
/// digested are different and have the same digest.
pub proof fn law_other_prompts_are_not_hit(
    e: CacheEntry,
    q: ExactQuery,
    client: Seq<char>,
    model: Seq<char>,
    prompt: Seq<char>,
    response: Seq<char>,
    asked_model: Seq<char>,
    asked_prompt: Seq<char>,
)
    requires
        !client.contains('\0'),
        !model.contains('\0'),
        !asked_model.contains('\0'),
        ({
            let stored = encode_utf8(client + seq!['\0'] + model + seq!['\0'] + prompt);
            let asked = encode_utf8(
                client + seq!['\0'] + asked_model + seq!['\0'] + asked_prompt,
            );
            sha256_text(stored) == sha256_text(asked) ==> stored == asked
        }),
        stores(e, client, model, prompt, response),
        asks_exact(q, client, asked_model, asked_prompt),
    ensures
        answers_exact(e, q) <==> model == asked_model && prompt == asked_prompt,
{
    law_keys_digest_client_model_and_prompt(client, model, prompt);
    law_keys_digest_client_model_and_prompt(client, asked_model, asked_prompt);
    assert(key_text(client, model, prompt) == client + seq!['\0'] + model + seq!['\0'] + prompt);
    assert(key_text(client, asked_model, asked_prompt) == client + seq!['\0'] + asked_model
        + seq!['\0'] + asked_prompt);
    if answers_exact(e, q) {
        law_key_bytes_tell_entries_apart(
            client,
            model,
            prompt,
            client,
            asked_model,
            asked_prompt,
        );
    }
}

/// What an entry keeps: the answer, the client and the model as they were given, the prompt to embed,
/// and the first two hundred characters of it for people to read.
pub proof fn law_entries_keep_the_answer_and_the_prompt(
    e: CacheEntry,
    client: Seq<char>,
    model: Seq<char>,
    prompt: Seq<char>,
    response: Seq<char>,
)
    requires
        stores(e, client, model, prompt, response),
    ensures
        e.cached_response@ == response,
        e.client_id@ == client,
        e.model_used@ == model,
        e.prompt@ == prompt,
        e.prompt_preview@.is_prefix_of(prompt),
        prompt.len() <= 200 ==> e.prompt_preview@.len() == prompt.len(),
        prompt.len() > 200 ==> e.prompt_preview@.len() == 200,
        sha256_text(encode_utf8(client + seq!['\0'] + model + seq!['\0'] + prompt))
            == e.prompt_hash@,
{
    law_keys_digest_client_model_and_prompt(client, model, prompt);
    assert(prompt.take(prompt.len() as int) == prompt);
}

/// A preview is the beginning of a prompt: all of it up to two hundred characters.
pub proof fn law_previews_begin_the_prompt(prompt: Seq<char>)
    ensures
        preview(prompt).is_prefix_of(prompt),
        prompt.len() <= 200 ==> preview(prompt) == prompt,
        prompt.len() > 200 ==> preview(prompt).len() == 200,
{
}

/// A nearest entry is one of the client and the model whose similarity is at least 0.96 (its bits as a
/// double), and all such entries are considered.
pub proof fn law_nearest_entries_reach_the_threshold(
    r: StoredRow,
    q: NearestQuery,
    client: Seq<char>,
    model: Seq<char>,
)
    requires
        asks_nearest(q, client, model),
    ensures
        q.client_id@ == client,
        q.model@ == model,
        near_enough(r, q.client_id@, q.model@, q.threshold) <==> r.client_id == client
            && r.model_used == model && (r.similarity matches Some(s) && s
            >= 4606822130829827768u64),
        near_enough(r, client, model, SIMILARITY_THRESHOLD) <==> near_enough(
            r,
            q.client_id@,
            q.model@,
            q.threshold,
        ),
{
}

/// Of two entries that are similar enough, the nearest is never the less similar one.
pub proof fn law_nearest_is_the_most_similar(
    table: Set<StoredRow>,
    r: StoredRow,
    other: StoredRow,
    client: Seq<char>,
    model: Seq<char>,
)
    requires
        is_nearest(table, r, client, model, SIMILARITY_THRESHOLD),
        table.contains(other),
        other.client_id == client,
        other.model_used == model,
        other.similarity is Some,
    ensures
        table.contains(r),
        r.similarity is Some,
        other.similarity->0 <= r.similarity->0,
{
}

/// The use of the entry that was found is counted, and of no other: the one that the first question
/// named, or the one that the second found.
pub proof fn law_the_found_entry_is_counted(
    exact: ExactQuery,
    pair: (String, String),
    exact_found: Option<Found>,
    nearest: NearestQuery,
    row: NearestRow,
    nearest_found: Option<Found>,
)
    requires
        found_exact(exact, Some(pair), exact_found),
        found_nearest(nearest, Some(row), nearest_found),
    ensures
        exact_found matches Some(f) && f.touch.prompt_hash@ == exact.prompt_hash@
            && f.touch.client_id@ == exact.client_id@ && f.hit.cached_response@ == pair.0@
            && f.hit.model_used@ == pair.1@ && f.hit.similarity == 4607182418800017408u64,
        nearest_found matches Some(f) && f.touch.prompt_hash@ == row.prompt_hash@
            && f.touch.client_id@ == nearest.client_id@ && f.hit.cached_response@
            == row.cached_response@ && f.hit.model_used@ == row.model_used@ && f.hit.similarity
            == row.similarity,
{
}

/// Without a row nothing is found.
pub proof fn law_no_row_is_no_hit(
    exact: ExactQuery,
    exact_found: Option<Found>,
    nearest: NearestQuery,
    nearest_found: Option<Found>,
)
    requires
        found_exact(exact, None, exact_found),
        found_nearest(nearest, None, nearest_found),
    ensures
        exact_found is None,
        nearest_found is None,
{
}

/// A NUL-free head and the rest behind the first NUL are determined by the whole.
proof fn lemma_head_and_tail(head: Seq<char>, tail: Seq<char>)
    requires
        !head.contains('\0'),
    ensures
        ({
            let s = head.push('\0') + tail;
            let i = first_index(s, '\0');
            &&& head == s.take(i)
            &&& tail == s.skip(i + 1)
        }),
{
    let s = head.push('\0') + tail;
    assert forall|j: int| 0 <= j < head.len() implies s[j] != '\0' by {
        assert(s[j] == head[j]);
        assert(head.contains(head[j]));
    }
    assert(s[head.len() as int] == '\0');
    lemma_first_index_unique(s, '\0', head.len() as int);
    assert(head == s.take(head.len() as int));
    assert(tail == s.skip(head.len() as int + 1));
}

/// A hit is seen with its answer, its model and its similarity.
pub proof fn law_hits_are_seen_whole(hit: CacheHit)
    ensures
        hit@.cached_response == hit.cached_response@,
        hit@.model_used == hit.model_used@,
        hit@.similarity == hit.similarity,
{
}

} // verus!
