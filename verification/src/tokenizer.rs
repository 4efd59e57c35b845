//! The tokenizer of the embedding model, and which settings let it encode every text.
//!
//! With some settings the `tokenizers` crate panics on some texts. A tokenizer is asked for tokens only
//! if its settings are of the kinds with which that cannot happen:
//!
//! - a normalizer and a pre-tokenizer leave every byte of the text they make aligned with a part of the
//!   text they were given that is not empty, and so does any sequence of them;
//! - the patterns of the added tokens are not empty, and the spaces that one takes in are not those of
//!   the next;
//! - a text that is cut is cut to pieces that step forward, and filled up to a length that fits;
//! - a template speaks of the one text that there is, and of special tokens that it knows.

use crate::json::{
    json_clone, json_field, json_is_null, json_items, json_text, json_u64, json_view, json_views,
    JsonView,
};
use crate::text::{characters, decimal, lemma_decimal_injective, same_text, text2};
use tokenizers::{PaddingStrategy, PostProcessor, Tokenizer};
use vstd::prelude::*;
use vstd::string::*;

verus! {

/// `tokenizers::Tokenizer`, a tokenizer with its vocabulary.
#[verifier::external_type_specification]
#[verifier::external_body]
pub struct ExTokenizer(tokenizers::Tokenizer);

/// The tokens of a text: their ids, which of them count, and to which segment they belong.
#[derive(Debug)]
pub struct Tokens {
    pub ids: Vec<u32>,
    pub attention_mask: Vec<u32>,
    pub type_ids: Vec<u32>,
}

/// The length that a tokenizer cuts a text to, and by how much the pieces overlap; nothing if it does
/// not cut.
pub uninterp spec fn truncation_of(t: Tokenizer) -> Option<(usize, usize)>;

/// How many tokens a tokenizer's post-processor adds to a text; nothing if it has none.
pub uninterp spec fn added_tokens_of(t: Tokenizer) -> Option<usize>;

/// The length that a tokenizer fills a text up to, if it is fixed, and the number of which it makes
/// the length a multiple; nothing if it does not fill up.
pub uninterp spec fn padding_of(t: Tokenizer) -> Option<(Option<usize>, Option<usize>)>;

/// A tokenizer's normalizer as JSON, null if it has none; nothing if it cannot be written as JSON.
pub uninterp spec fn normalizer_of(t: Tokenizer) -> Option<JsonView>;

/// A tokenizer's pre-tokenizer as JSON, null if it has none; nothing if it cannot be written as JSON.
pub uninterp spec fn pre_tokenizer_of(t: Tokenizer) -> Option<JsonView>;

/// A tokenizer's post-processor as JSON, null if it has none; nothing if it cannot be written as
/// JSON.
pub uninterp spec fn post_processor_of(t: Tokenizer) -> Option<JsonView>;

/// The texts of the tokens that were added to a tokenizer's vocabulary.
pub uninterp spec fn added_texts_of(t: Tokenizer) -> Set<Seq<char>>;

/// Of the tokens that were added to a tokenizer's vocabulary: whether they take in the spaces on their
/// left, and those on their right.
pub uninterp spec fn added_sides_of(t: Tokenizer) -> Set<(bool, bool)>;

/// Whether the patterns by which a tokenizer finds its added tokens were made with the normalizer that
/// it has.
pub uninterp spec fn patterns_fresh(t: Tokenizer) -> bool;

/// Whether a tokenizer may make these tokens of a text.
pub uninterp spec fn may_encode(
    t: Tokenizer,
    text: Seq<char>,
    ids: Seq<u32>,
    mask: Seq<u32>,
    types: Seq<u32>,
) -> bool;

/// `tokenizers::Tokenizer::get_truncation`: the settings as numbers.
#[verifier::external_body]
fn truncation(t: &Tokenizer) -> (r: Option<(usize, usize)>)
    ensures
        r == truncation_of(*t),
{
    t.get_truncation().map(|p| (p.max_length, p.stride))
}

/// `tokenizers::PostProcessor::added_tokens` of the tokenizer's post-processor, for a single text.
#[verifier::external_body]
fn added_tokens(t: &Tokenizer) -> (r: Option<usize>)
    ensures
        r == added_tokens_of(*t),
{
    t.get_post_processor().map(|p| p.added_tokens(false))
}

/// `tokenizers::Tokenizer::get_padding`: the settings as numbers.
#[verifier::external_body]
fn padding(t: &Tokenizer) -> (r: Option<(Option<usize>, Option<usize>)>)
    ensures
        r == padding_of(*t),
{
    t.get_padding().map(|p| match p.strategy {
        PaddingStrategy::Fixed(n) => (Some(n), p.pad_to_multiple_of),
        PaddingStrategy::BatchLongest => (None, p.pad_to_multiple_of),
    })
}

/// `serde_json::to_value` of the tokenizer's normalizer: what it is, as JSON.
#[verifier::external_body]
fn normalizer(t: &Tokenizer) -> (r: Result<serde_json::Value, String>)
    ensures
        match r {
            Ok(v) => normalizer_of(*t) == Some(json_view(v)),
            Err(_) => normalizer_of(*t) is None,
        },
{
    serde_json::to_value(t.get_normalizer()).map_err(|e| e.to_string())
}

/// `serde_json::to_value` of the tokenizer's pre-tokenizer: what it is, as JSON.
#[verifier::external_body]
fn pre_tokenizer(t: &Tokenizer) -> (r: Result<serde_json::Value, String>)
    ensures
        match r {
            Ok(v) => pre_tokenizer_of(*t) == Some(json_view(v)),
            Err(_) => pre_tokenizer_of(*t) is None,
        },
{
    serde_json::to_value(t.get_pre_tokenizer()).map_err(|e| e.to_string())
}

/// `serde_json::to_value` of the tokenizer's post-processor: what it is, as JSON.
#[verifier::external_body]
fn post_processor(t: &Tokenizer) -> (r: Result<serde_json::Value, String>)
    ensures
        match r {
            Ok(v) => post_processor_of(*t) == Some(json_view(v)),
            Err(_) => post_processor_of(*t) is None,
        },
{
    serde_json::to_value(t.get_post_processor()).map_err(|e| e.to_string())
}

/// `tokenizers::AddedVocabulary::get_vocab`: the texts, in any order.
#[verifier::external_body]
fn added_texts(t: &Tokenizer) -> (r: Vec<String>)
    ensures
        text_views(r@).to_set() == added_texts_of(*t),
{
    t.get_added_vocabulary().get_vocab().keys().cloned().collect()
}

/// `tokenizers::AddedVocabulary::get_added_tokens_decoder`: two settings of each token, in any order.
#[verifier::external_body]
fn added_sides(t: &Tokenizer) -> (r: Vec<(bool, bool)>)
    ensures
        r@.to_set() == added_sides_of(*t),
{
    let tokens = t.get_added_vocabulary().get_added_tokens_decoder();
    tokens.values().map(|a| (a.lstrip, a.rstrip)).collect()
}

/// `tokenizers::Tokenizer::add_tokens` without a token: it adds none, and makes the patterns of those
/// that there are anew. It panics with a normalizer that does.
#[verifier::external_body]
fn refresh_patterns(t: &mut Tokenizer)
    requires
        sound_normalizer(normalizer_of(*old(t))),
    ensures
        patterns_fresh(*final(t)),
        same_settings(*final(t), *old(t)),
        patterns_fresh(*old(t)) ==> *final(t) == *old(t),
{
    t.add_tokens(&[]);
}

/// `tokenizers::Tokenizer::get_truncation_mut`: sets by how much the pieces of a text that is cut
/// overlap. The overlap tells where the pieces behind the first begin, and the first piece alone is
/// what a text is encoded as: with no overlap, whatever tokens were made of a text before are made of
/// it now. With one as long as the pieces the tokenizer panics on texts that it cuts, so nothing is
/// said the other way.
#[verifier::external_body]
fn set_overlap(t: &mut Tokenizer, overlap: usize)
    ensures
        truncation_of(*final(t)) == match truncation_of(*old(t)) {
            Some(p) => Some((p.0, overlap)),
            None => None,
        },
        same_but_truncation(*final(t), *old(t)),
        patterns_fresh(*final(t)) == patterns_fresh(*old(t)),
        overlap == 0 ==> encodes_as(*final(t), *old(t)),
{
    if let Some(p) = t.get_truncation_mut() {
        p.stride = overlap;
    }
}

/// The texts, as sequences of characters.
pub open spec fn text_views(v: Seq<String>) -> Seq<Seq<char>> {
    v.map_values(|s: String| s@)
}

/// The settings of two tokenizers are the same.
pub open spec fn same_settings(a: Tokenizer, b: Tokenizer) -> bool {
    truncation_of(a) == truncation_of(b) && same_but_truncation(a, b)
}

/// Whatever tokens one tokenizer may make of a text, the other may make too.
pub open spec fn encodes_as(a: Tokenizer, b: Tokenizer) -> bool {
    forall|text: Seq<char>, ids: Seq<u32>, mask: Seq<u32>, types: Seq<u32>| #[trigger]
        may_encode(b, text, ids, mask, types) ==> may_encode(a, text, ids, mask, types)
}

/// The settings of two tokenizers are the same, but for how they cut a text.
pub open spec fn same_but_truncation(a: Tokenizer, b: Tokenizer) -> bool {
    &&& added_tokens_of(a) == added_tokens_of(b)
    &&& padding_of(a) == padding_of(b)
    &&& normalizer_of(a) == normalizer_of(b)
    &&& pre_tokenizer_of(a) == pre_tokenizer_of(b)
    &&& post_processor_of(a) == post_processor_of(b)
    &&& added_texts_of(a) == added_texts_of(b)
    &&& added_sides_of(a) == added_sides_of(b)
}

/// A tokenizer that cuts leaves room for the tokens that it adds, and steps forward from piece to
/// piece.
pub open spec fn cuts_soundly(truncation: Option<(usize, usize)>, added: Option<usize>) -> bool {
    match truncation {
        None => true,
        Some(p) => {
            let added = match added {
                Some(n) => n as int,
                None => 0,
            };
            &&& added <= p.0
            &&& p.0 == added || p.1 < p.0 - added
        },
    }
}

/// How a tokenizer cuts a text when it is asked: as it is set, or, where the pieces would not step
/// forward, without an overlap.
pub open spec fn cut_used(truncation: Option<(usize, usize)>, added: Option<usize>) -> Option<
    (usize, usize),
> {
    match truncation {
        Some(p) => if cuts_soundly(truncation, added) {
            truncation
        } else {
            Some((p.0, 0))
        },
        None => None,
    }
}

/// A tokenizer that fills up does so to lengths that can be counted.
pub open spec fn fills_soundly(padding: Option<(Option<usize>, Option<usize>)>) -> bool {
    match padding {
        None => true,
        Some(p) => {
            &&& p.0 matches Some(n) ==> n <= usize::MAX / 256
            &&& p.1 matches Some(n) ==> n <= usize::MAX / 256
        },
    }
}

/// A JSON object with a field, and that field.
pub open spec fn field(v: JsonView, name: Seq<char>) -> Option<JsonView> {
    if v is Obj && v->Obj_0.dom().contains(name) {
        Some(v->Obj_0[name])
    } else {
        None
    }
}

/// A piece of a template speaks of the one text, or of a special token that the template knows.
pub open spec fn sound_piece(piece: JsonView, tokens: JsonView) -> bool {
    match field(piece, "Sequence"@) {
        Some(p) => field(p, "id"@) == Some(JsonView::Str("A"@)),
        None => match field(piece, "SpecialToken"@) {
            Some(p) => field(p, "id"@) matches Some(JsonView::Str(id)) && field(tokens, id) is Some,
            None => false,
        },
    }
}

/// A template for one text, all of whose pieces are sound.
pub open spec fn sound_template(v: JsonView) -> bool {
    &&& field(v, "single"@) matches Some(JsonView::Arr(pieces)) && field(
        v,
        "special_tokens"@,
    ) matches Some(tokens) && forall|i: int|
        0 <= i < pieces.len() ==> sound_piece(#[trigger] pieces[i], tokens)
}

/// The parts of which a setting is made: a sequence is made of the parts of the members of its list,
/// in order, and anything else is a part by itself. Nothing, if a sequence has no list.
pub open spec fn parts(v: JsonView, list: Seq<char>) -> Option<Seq<JsonView>>
    decreases v, 0nat,
{
    if field(v, "type"@) != Some(JsonView::Str("Sequence"@)) {
        Some(seq![v])
    } else if v is Obj && v->Obj_0.dom().contains(list) && v->Obj_0[list] is Arr {
        let members = v->Obj_0[list]->Arr_0;
        parts_of_first(members, members.len(), list)
    } else {
        None
    }
}

/// The parts of the first so many members of a list.
pub open spec fn parts_of_first(members: Seq<JsonView>, n: nat, list: Seq<char>) -> Option<
    Seq<JsonView>,
>
    decreases members, n,
{
    if n == 0 || n > members.len() {
        Some(seq![])
    } else {
        match (parts_of_first(members, (n - 1) as nat, list), parts(members[n - 1], list)) {
            (Some(before), Some(last)) => Some(before + last),
            _ => None,
        }
    }
}

/// A setting that names what it is.
pub open spec fn named(v: JsonView, name: Seq<char>) -> bool {
    field(v, "type"@) == Some(JsonView::Str(name))
}

/// A normalizer that changes a text where it stands, and keeps the printing characters of ASCII in
/// some form. What is put in front of a text is not empty.
pub open spec fn plain_normalizer(v: JsonView) -> bool {
    ||| named(v, "BertNormalizer"@)
    ||| named(v, "Strip"@)
    ||| named(v, "StripAccents"@)
    ||| named(v, "NFC"@)
    ||| named(v, "NFD"@)
    ||| named(v, "NFKC"@)
    ||| named(v, "NFKD"@)
    ||| named(v, "Lowercase"@)
    ||| named(v, "Nmt"@)
    ||| named(v, "ByteLevel"@)
    ||| (named(v, "Prepend"@) && field(v, "prepend"@) != Some(JsonView::Str(""@)))
}

/// A normalizer that handles every text: none, a plain one, or a sequence of such.
pub open spec fn sound_normalizer(v: Option<JsonView>) -> bool {
    match v {
        Some(v) => v is Null || match parts(v, "normalizers"@) {
            Some(p) => forall|i: int| 0 <= i < p.len() ==> plain_normalizer(#[trigger] p[i]),
            None => false,
        },
        None => false,
    }
}

/// A number from one on.
pub open spec fn positive(v: JsonView) -> bool {
    exists|k: u64| k > 0 && v == JsonView::Number(#[trigger] decimal(k as nat))
}

/// A pre-tokenizer that splits every text; one that splits into pieces of a fixed length has a length.
pub open spec fn plain_pre_tokenizer(v: JsonView) -> bool {
    ||| named(v, "BertPreTokenizer"@)
    ||| named(v, "ByteLevel"@)
    ||| named(v, "CharDelimiterSplit"@)
    ||| named(v, "Metaspace"@)
    ||| named(v, "Whitespace"@)
    ||| named(v, "WhitespaceSplit"@)
    ||| named(v, "Punctuation"@)
    ||| named(v, "Digits"@)
    ||| named(v, "UnicodeScripts"@)
    ||| (named(v, "FixedLength"@) && match field(v, "length"@) {
        Some(n) => positive(n),
        None => false,
    })
}

/// A pre-tokenizer that handles every text: none, a plain one, or a sequence of such.
pub open spec fn sound_pre_tokenizer(v: Option<JsonView>) -> bool {
    match v {
        Some(v) => v is Null || match parts(v, "pretokenizers"@) {
            Some(p) => forall|i: int| 0 <= i < p.len() ==> plain_pre_tokenizer(#[trigger] p[i]),
            None => false,
        },
        None => false,
    }
}

/// A post-processor that only touches the tokens that there are, or adds one at each end.
pub open spec fn plain_processor(v: JsonView) -> bool {
    ||| named(v, "BertProcessing"@)
    ||| named(v, "RobertaProcessing"@)
    ||| named(v, "ByteLevel"@)
}

/// A template that is sound.
pub open spec fn template_processor(v: JsonView) -> bool {
    named(v, "TemplateProcessing"@) && sound_template(v)
}

/// A post-processor that handles every single text: none, a plain one or a template, or a sequence of
/// such with one template at most.
pub open spec fn sound_processor(v: Option<JsonView>) -> bool {
    match v {
        Some(v) => v is Null || match parts(v, "processors"@) {
            Some(p) => {
                &&& forall|i: int|
                    0 <= i < p.len() ==> plain_processor(#[trigger] p[i]) || template_processor(
                        p[i],
                    )
                &&& forall|i: int, j: int|
                    0 <= i < j < p.len() ==> plain_processor(#[trigger] p[i]) || plain_processor(
                        #[trigger] p[j],
                    )
            },
            None => false,
        },
        None => false,
    }
}

/// A text with a printing character of ASCII other than the space.
pub open spec fn has_mark(s: Seq<char>) -> bool {
    exists|i: int| 0 <= i < s.len() && '!' <= #[trigger] s[i] <= '~'
}

/// Added tokens that are found in every text: a normalizer leaves something of each, and if one takes
/// in the spaces on its left, none takes in those on its right.
pub open spec fn sound_added(
    normalizer: Option<JsonView>,
    texts: Set<Seq<char>>,
    sides: Set<(bool, bool)>,
) -> bool {
    &&& normalizer == Some(JsonView::Null) || forall|s: Seq<char>| #[trigger]
        texts.contains(s) ==> has_mark(s)
    &&& !exists|a: (bool, bool), b: (bool, bool)| #[trigger]
        sides.contains(a) && #[trigger] sides.contains(b) && a.0 && b.1
}

/// Whether a tokenizer's settings let it encode every text.
pub open spec fn sound_tokenizer(t: Tokenizer) -> bool {
    &&& cuts_soundly(truncation_of(t), added_tokens_of(t))
    &&& fills_soundly(padding_of(t))
    &&& sound_normalizer(normalizer_of(t))
    &&& sound_pre_tokenizer(pre_tokenizer_of(t))
    &&& sound_processor(post_processor_of(t))
    &&& sound_added(normalizer_of(t), added_texts_of(t), added_sides_of(t))
}

/// `tokenizers::Tokenizer::encode` of the text, with special tokens added. Which tokens come out
/// depends on the tokenizer's vocabulary and settings, which may call for chance: it is said only
/// that they are such as this tokenizer may make of this text. With settings that are not sound, or
/// patterns of another normalizer, it panics on some texts.
#[verifier::external_body]
fn encode(tokenizer: &Tokenizer, text: &str) -> (r: Result<Tokens, String>)
    requires
        sound_tokenizer(*tokenizer),
        patterns_fresh(*tokenizer),
    ensures
        r matches Ok(tokens) ==> may_encode(
            *tokenizer,
            text@,
            tokens.ids@,
            tokens.attention_mask@,
            tokens.type_ids@,
        ),
{
    match tokenizer.encode(text, true) {
        Ok(e) => Ok(
            Tokens {
                ids: e.get_ids().to_vec(),
                attention_mask: e.get_attention_mask().to_vec(),
                type_ids: e.get_type_ids().to_vec(),
            },
        ),
        Err(e) => Err(e.to_string()),
    }
}

/// Whether a JSON value is this text.
fn is_text(v: &serde_json::Value, text: &str) -> (r: bool)
    ensures
        r == (json_view(*v) == JsonView::Str(text@)),
{
    match json_text(v) {
        Some(s) => same_text(s, text),
        None => false,
    }
}

/// Whether a field of a JSON object is this text.
fn field_is(v: &serde_json::Value, name: &str, text: &str) -> (r: bool)
    ensures
        r == (field(json_view(*v), name@) == Some(JsonView::Str(text@))),
{
    match json_field(v, name) {
        Some(f) => is_text(f, text),
        None => false,
    }
}

fn is_named(v: &serde_json::Value, name: &str) -> (r: bool)
    ensures
        r == named(json_view(*v), name@),
{
    field_is(v, "type", name)
}

/// Adds the parts of which a setting is made; no, if a sequence has no list.
fn add_parts(v: &serde_json::Value, list: &str, out: &mut Vec<serde_json::Value>) -> (r: bool)
    ensures
        match parts(json_view(*v), list@) {
            Some(p) => r && json_views(final(out)@) == json_views(old(out)@) + p,
            None => !r,
        },
    decreases json_view(*v),
{
    if !is_named(v, "Sequence") {
        let ghost before = json_views(out@);
        out.push(json_clone(v));
        assert(json_views(out@) =~= before + seq![json_view(*v)]);
        return true;
    }
    let members = match json_field(v, list) {
        Some(f) => match json_items(f) {
            Some(items) => items,
            None => {
                return false;
            },
        },
        None => {
            return false;
        },
    };
    let ghost views = json_views(members@);
    let ghost start = json_views(out@);
    let mut i: usize = 0;
    assert(json_views(out@) =~= start + seq![]);
    while i < members.len()
        invariant
            views == json_views(members@),
            json_view(*v) is Obj,
            json_view(*v)->Obj_0.dom().contains(list@),
            json_view(*v)->Obj_0[list@] == JsonView::Arr(views),
            i <= members@.len(),
            start == json_views(old(out)@),
            named(json_view(*v), "Sequence"@),
            match parts_of_first(views, i as nat, list@) {
                Some(p) => json_views(out@) == start + p,
                None => false,
            },
        decreases members@.len() - i,
    {
        assert(views[i as int] == json_view(members@[i as int]));
        let ghost before = json_views(out@);
        let ok = add_parts(&members[i], list, out);
        if !ok {
            proof {
                lemma_missing_part(views, (i + 1) as nat, views.len(), list@);
            }
            return false;
        }
        assert(json_views(out@) =~= start + (parts_of_first(views, i as nat, list@)->0 + parts(
            views[i as int],
            list@,
        )->0));
        i = i + 1;
    }
    true
}

/// What is missing among the first members of a list is missing among more of them.
proof fn lemma_missing_part(members: Seq<JsonView>, n: nat, m: nat, list: Seq<char>)
    requires
        n <= m <= members.len(),
        parts_of_first(members, n, list) is None,
    ensures
        parts_of_first(members, m, list) is None,
    decreases m,
{
    if n < m {
        lemma_missing_part(members, n, (m - 1) as nat, list);
    }
}

fn normalizer_is_plain(v: &serde_json::Value) -> (r: bool)
    ensures
        r == plain_normalizer(json_view(*v)),
{
    is_named(v, "BertNormalizer") || is_named(v, "Strip") || is_named(v, "StripAccents")
        || is_named(v, "NFC") || is_named(v, "NFD") || is_named(v, "NFKC") || is_named(v, "NFKD")
        || is_named(v, "Lowercase") || is_named(v, "Nmt") || is_named(v, "ByteLevel") || (is_named(
        v,
        "Prepend",
    ) && !field_is(v, "prepend", ""))
}

/// Whether a normalizer, given as JSON, handles every text.
pub fn normalizer_is_sound(v: &serde_json::Value) -> (r: bool)
    ensures
        r == sound_normalizer(Some(json_view(*v))),
{
    if json_is_null(v) {
        return true;
    }
    let mut list: Vec<serde_json::Value> = Vec::new();
    assert(json_views(list@) =~= seq![]);
    if !add_parts(v, "normalizers", &mut list) {
        return false;
    }
    let ghost p = parts(json_view(*v), "normalizers"@)->0;
    assert(json_views(list@) =~= p);
    let mut i: usize = 0;
    while i < list.len()
        invariant
            i <= list@.len(),
            json_views(list@) == p,
            parts(json_view(*v), "normalizers"@) == Some(p),
            !(json_view(*v) is Null),
            forall|j: int| 0 <= j < i ==> plain_normalizer(#[trigger] p[j]),
        decreases list@.len() - i,
    {
        assert(p[i as int] == json_view(list@[i as int]));
        if !normalizer_is_plain(&list[i]) {
            assert(!plain_normalizer(parts(json_view(*v), "normalizers"@)->0[i as int]));
            return false;
        }
        i = i + 1;
    }
    true
}

fn is_positive(v: &serde_json::Value) -> (r: bool)
    ensures
        r == positive(json_view(*v)),
{
    match json_u64(v) {
        Some(k) => {
            proof {
                if positive(json_view(*v)) {
                    let m = choose|m: u64|
                        m > 0 && json_view(*v) == JsonView::Number(#[trigger] decimal(m as nat));
                    lemma_decimal_injective(k as nat, m as nat);
                }
            }
            k > 0
        },
        None => false,
    }
}

fn has_length(v: &serde_json::Value) -> (r: bool)
    ensures
        r == match field(json_view(*v), "length"@) {
            Some(n) => positive(n),
            None => false,
        },
{
    match json_field(v, "length") {
        Some(n) => is_positive(n),
        None => false,
    }
}

fn pre_tokenizer_is_plain(v: &serde_json::Value) -> (r: bool)
    ensures
        r == plain_pre_tokenizer(json_view(*v)),
{
    is_named(v, "BertPreTokenizer") || is_named(v, "ByteLevel") || is_named(v, "CharDelimiterSplit")
        || is_named(v, "Metaspace") || is_named(v, "Whitespace") || is_named(v, "WhitespaceSplit")
        || is_named(v, "Punctuation") || is_named(v, "Digits") || is_named(v, "UnicodeScripts") || (
    is_named(v, "FixedLength") && has_length(v))
}

/// Whether a pre-tokenizer, given as JSON, handles every text.
pub fn pre_tokenizer_is_sound(v: &serde_json::Value) -> (r: bool)
    ensures
        r == sound_pre_tokenizer(Some(json_view(*v))),
{
    if json_is_null(v) {
        return true;
    }
    let mut list: Vec<serde_json::Value> = Vec::new();
    assert(json_views(list@) =~= seq![]);
    if !add_parts(v, "pretokenizers", &mut list) {
        return false;
    }
    let ghost p = parts(json_view(*v), "pretokenizers"@)->0;
    assert(json_views(list@) =~= p);
    let mut i: usize = 0;
    while i < list.len()
        invariant
            i <= list@.len(),
            json_views(list@) == p,
            parts(json_view(*v), "pretokenizers"@) == Some(p),
            !(json_view(*v) is Null),
            forall|j: int| 0 <= j < i ==> plain_pre_tokenizer(#[trigger] p[j]),
        decreases list@.len() - i,
    {
        assert(p[i as int] == json_view(list@[i as int]));
        if !pre_tokenizer_is_plain(&list[i]) {
            assert(!plain_pre_tokenizer(parts(json_view(*v), "pretokenizers"@)->0[i as int]));
            return false;
        }
        i = i + 1;
    }
    true
}

fn piece_is_sound(piece: &serde_json::Value, tokens: &serde_json::Value) -> (r: bool)
    ensures
        r == sound_piece(json_view(*piece), json_view(*tokens)),
{
    match json_field(piece, "Sequence") {
        Some(p) => field_is(p, "id", "A"),
        None => match json_field(piece, "SpecialToken") {
            Some(p) => match json_field(p, "id") {
                Some(id) => match json_text(id) {
                    Some(id) => match json_field(tokens, id) {
                        Some(_) => true,
                        None => false,
                    },
                    None => false,
                },
                None => false,
            },
            None => false,
        },
    }
}

fn template_is_sound(v: &serde_json::Value) -> (r: bool)
    ensures
        r == sound_template(json_view(*v)),
{
    let single = match json_field(v, "single") {
        Some(f) => f,
        None => {
            return false;
        },
    };
    let pieces = match json_items(single) {
        Some(items) => items,
        None => {
            return false;
        },
    };
    let tokens = match json_field(v, "special_tokens") {
        Some(f) => f,
        None => {
            return false;
        },
    };
    let mut i: usize = 0;
    while i < pieces.len()
        invariant
            json_view(*single) == JsonView::Arr(json_views(pieces@)),
            field(json_view(*v), "single"@) == Some(json_view(*single)),
            field(json_view(*v), "special_tokens"@) == Some(json_view(*tokens)),
            i <= pieces@.len(),
            forall|j: int|
                0 <= j < i ==> sound_piece(
                    #[trigger] json_views(pieces@)[j],
                    json_view(*tokens),
                ),
        decreases pieces@.len() - i,
    {
        assert(json_views(pieces@)[i as int] == json_view(pieces@[i as int]));
        if !piece_is_sound(&pieces[i], tokens) {
            assert(!sound_piece(json_views(pieces@)[i as int], json_view(*tokens)));
            assert(field(json_view(*v), "single"@)->0->Arr_0 == json_views(pieces@));
            return false;
        }
        i = i + 1;
    }
    true
}

fn processor_is_plain(v: &serde_json::Value) -> (r: bool)
    ensures
        r == plain_processor(json_view(*v)),
{
    is_named(v, "BertProcessing") || is_named(v, "RobertaProcessing") || is_named(v, "ByteLevel")
}

fn processor_is_template(v: &serde_json::Value) -> (r: bool)
    ensures
        r == template_processor(json_view(*v)),
{
    is_named(v, "TemplateProcessing") && template_is_sound(v)
}

/// Whether a post-processor, given as JSON, handles every single text.
pub fn processor_is_sound(v: &serde_json::Value) -> (r: bool)
    ensures
        r == sound_processor(Some(json_view(*v))),
{
    if json_is_null(v) {
        return true;
    }
    let mut list: Vec<serde_json::Value> = Vec::new();
    assert(json_views(list@) =~= seq![]);
    if !add_parts(v, "processors", &mut list) {
        return false;
    }
    let ghost p = parts(json_view(*v), "processors"@)->0;
    assert(json_views(list@) =~= p);
    let mut template: Option<usize> = None;
    let mut i: usize = 0;
    while i < list.len()
        invariant
            i <= list@.len(),
            json_views(list@) == p,
            parts(json_view(*v), "processors"@) == Some(p),
            !(json_view(*v) is Null),
            template matches Some(k) ==> k < i && !plain_processor(p[k as int]),
            forall|j: int|
                0 <= j < i ==> plain_processor(#[trigger] p[j]) || (template == Some(j as usize)
                    && template_processor(p[j])),
        decreases list@.len() - i,
    {
        assert(p[i as int] == json_view(list@[i as int]));
        if !processor_is_plain(&list[i]) {
            assert(!plain_processor(p[i as int]));
            if template.is_some() || !processor_is_template(&list[i]) {
                assert(!plain_processor(parts(json_view(*v), "processors"@)->0[i as int]));
                return false;
            }
            template = Some(i);
        }
        i = i + 1;
    }
    true
}

/// Whether a tokenizer that cuts to a length, with an overlap, and adds tokens does so soundly.
pub fn truncation_is_sound(truncation: Option<(usize, usize)>, added: Option<usize>) -> (r: bool)
    ensures
        r == cuts_soundly(truncation, added),
{
    match truncation {
        None => true,
        Some((max_length, stride)) => {
            let added: usize = match added {
                Some(n) => n,
                None => 0,
            };
            added <= max_length && (max_length == added || stride < max_length - added)
        },
    }
}

/// Whether a tokenizer fills up to lengths that can be counted.
pub fn padding_is_sound(padding: Option<(Option<usize>, Option<usize>)>) -> (r: bool)
    ensures
        r == fills_soundly(padding),
{
    match padding {
        None => true,
        Some((size, multiple)) => {
            let size_fits = match size {
                Some(n) => n <= usize::MAX / 256,
                None => true,
            };
            let multiple_fits = match multiple {
                Some(n) => n <= usize::MAX / 256,
                None => true,
            };
            size_fits && multiple_fits
        },
    }
}

fn text_has_mark(s: &str) -> (r: bool)
    ensures
        r == has_mark(s@),
{
    let v = characters(s);
    let mut i: usize = 0;
    while i < v.len()
        invariant
            v@ == s@,
            i <= v@.len(),
            forall|j: int| 0 <= j < i ==> !('!' <= #[trigger] s@[j] <= '~'),
        decreases v@.len() - i,
    {
        if '!' <= v[i] && v[i] <= '~' {
            assert('!' <= s@[i as int] <= '~');
            return true;
        }
        i = i + 1;
    }
    false
}

/// Whether each of these texts has a printing character of ASCII other than the space.
pub fn texts_have_marks(texts: &Vec<String>) -> (r: bool)
    ensures
        r == forall|s: Seq<char>| #[trigger]
            text_views(texts@).to_set().contains(s) ==> has_mark(s),
{
    let ghost views = text_views(texts@);
    let mut i: usize = 0;
    while i < texts.len()
        invariant
            views == text_views(texts@),
            i <= texts@.len(),
            forall|j: int| 0 <= j < i ==> has_mark(#[trigger] views[j]),
        decreases texts@.len() - i,
    {
        assert(views[i as int] == texts@[i as int]@);
        if !text_has_mark(texts[i].as_str()) {
            assert(views.contains(views[i as int]));
            assert(views.to_set().contains(views[i as int]));
            return false;
        }
        i = i + 1;
    }
    assert forall|s: Seq<char>| #[trigger] views.to_set().contains(s) implies has_mark(s) by {
        assert(views.contains(s));
    }
    true
}

/// Whether no token takes in the spaces on its left while one takes in those on its right.
pub fn sides_agree(sides: &Vec<(bool, bool)>) -> (r: bool)
    ensures
        r == !exists|a: (bool, bool), b: (bool, bool)| #[trigger]
            sides@.to_set().contains(a) && #[trigger] sides@.to_set().contains(b) && a.0 && b.1,
{
    let mut left: Option<usize> = None;
    let mut right: Option<usize> = None;
    let mut i: usize = 0;
    while i < sides.len()
        invariant
            i <= sides@.len(),
            match left {
                Some(k) => k < i && sides@[k as int].0,
                None => forall|j: int| 0 <= j < i ==> !(#[trigger] sides@[j]).0,
            },
            match right {
                Some(k) => k < i && sides@[k as int].1,
                None => forall|j: int| 0 <= j < i ==> !(#[trigger] sides@[j]).1,
            },
        decreases sides@.len() - i,
    {
        if sides[i].0 {
            left = Some(i);
        }
        if sides[i].1 {
            right = Some(i);
        }
        i = i + 1;
    }
    match (left, right) {
        (Some(k), Some(m)) => {
            assert(sides@.to_set().contains(sides@[k as int]));
            assert(sides@.to_set().contains(sides@[m as int]));
            false
        },
        _ => {
            assert forall|a: (bool, bool), b: (bool, bool)| #[trigger]
                sides@.to_set().contains(a) && #[trigger] sides@.to_set().contains(
                    b,
                ) implies !(a.0 && b.1) by {
                assert(sides@.contains(a));
                assert(sides@.contains(b));
            }
            true
        },
    }
}

/// Whether a tokenizer's settings let it encode every text.
pub fn tokenizer_is_sound(t: &Tokenizer) -> (r: bool)
    ensures
        r == sound_tokenizer(*t),
{
    if !truncation_is_sound(truncation(t), added_tokens(t)) || !padding_is_sound(padding(t)) {
        return false;
    }
    let no_normalizer = match normalizer(t) {
        Ok(v) => {
            if !normalizer_is_sound(&v) {
                return false;
            }
            json_is_null(&v)
        },
        Err(_) => {
            return false;
        },
    };
    let splits = match pre_tokenizer(t) {
        Ok(v) => pre_tokenizer_is_sound(&v),
        Err(_) => false,
    };
    let handles = match post_processor(t) {
        Ok(v) => processor_is_sound(&v),
        Err(_) => false,
    };
    splits && handles && (no_normalizer || texts_have_marks(&added_texts(t))) && sides_agree(
        &added_sides(t),
    )
}

/// Why a text has no tokens.
#[derive(Debug)]
pub enum EmbedError {
    /// The tokenizer's settings are not sound, so it was not asked.
    Unsound,
    /// The tokenizer failed, for this reason.
    Encode(String),
}

/// What is said of a tokenizer whose settings are not sound.
pub const UNSOUND_TOKENIZER: &'static str = "tokenizer encode failed: settings that cannot encode every text";

impl EmbedError {
    /// The error in words.
    pub open spec fn words(&self) -> Seq<char> {
        match *self {
            EmbedError::Unsound => UNSOUND_TOKENIZER@,
            EmbedError::Encode(reason) => "tokenizer encode failed: "@ + reason@,
        }
    }

    /// The error in words.
    pub fn message(&self) -> (s: String)
        ensures
            s@ == self.words(),
    {
        match self {
            EmbedError::Unsound => UNSOUND_TOKENIZER.to_string(),
            EmbedError::Encode(reason) => text2("tokenizer encode failed: ", reason.as_str()),
        }
    }
}

/// A tokenizer, ready to be asked for the tokens of texts.
pub struct TextTokenizer {
    tokenizer: Tokenizer,
    sound: bool,
}

impl TextTokenizer {
    #[verifier::type_invariant]
    spec fn ready(&self) -> bool {
        &&& self.sound == sound_tokenizer(self.tokenizer)
        &&& self.sound ==> patterns_fresh(self.tokenizer)
    }

    /// The tokenizer that is asked.
    pub closed spec fn tokenizer(&self) -> Tokenizer {
        self.tokenizer
    }

    /// A tokenizer that would cut texts into pieces that do not step forward is set to cut them without
    /// an overlap: of a text that it cuts it panicked before. One whose settings are sound then gets
    /// the patterns of its normalizer, if it has others.
    pub fn new(tokenizer: Tokenizer) -> (r: TextTokenizer)
        ensures
            same_but_truncation(r.tokenizer(), tokenizer),
            truncation_of(r.tokenizer()) == cut_used(
                truncation_of(tokenizer),
                added_tokens_of(tokenizer),
            ),
            sound_tokenizer(r.tokenizer()) ==> patterns_fresh(r.tokenizer()),
            patterns_fresh(tokenizer) || !sound_tokenizer(r.tokenizer()) ==> encodes_as(
                r.tokenizer(),
                tokenizer,
            ),
            patterns_fresh(tokenizer) && sound_tokenizer(tokenizer) ==> r.tokenizer() == tokenizer,
    {
        let mut tokenizer = tokenizer;
        if !truncation_is_sound(truncation(&tokenizer), added_tokens(&tokenizer)) {
            set_overlap(&mut tokenizer, 0);
        }
        let sound = tokenizer_is_sound(&tokenizer);
        if sound {
            refresh_patterns(&mut tokenizer);
        }
        TextTokenizer { tokenizer, sound }
    }

    /// The tokenizer itself, for a caller that asks one whose settings are not sound all the same: it
    /// encodes many texts, and panics on others.
    pub fn inner(&self) -> (r: &Tokenizer)
        ensures
            *r == self.tokenizer(),
    {
        &self.tokenizer
    }

    /// Whether the settings let it encode every text.
    pub fn is_sound(&self) -> (r: bool)
        ensures
            r == sound_tokenizer(self.tokenizer()),
    {
        proof {
            use_type_invariant(self);
        }
        self.sound
    }

    /// The tokens of a text. A tokenizer whose settings are not sound is not asked.
    pub fn tokens(&self, text: &str) -> (r: Result<Tokens, EmbedError>)
        ensures
            match r {
                Ok(tokens) => sound_tokenizer(self.tokenizer()) && may_encode(
                    self.tokenizer(),
                    text@,
                    tokens.ids@,
                    tokens.attention_mask@,
                    tokens.type_ids@,
                ),
                Err(EmbedError::Unsound) => !sound_tokenizer(self.tokenizer()),
                Err(EmbedError::Encode(_)) => sound_tokenizer(self.tokenizer()),
            },
    {
        proof {
            use_type_invariant(self);
        }
        if !self.sound {
            return Err(EmbedError::Unsound);
        }
        match encode(&self.tokenizer, text) {
            Ok(tokens) => Ok(tokens),
            Err(e) => Err(EmbedError::Encode(e)),
        }
    }
}

// What holds of settings that are sound.

/// A tokenizer that cuts keeps room for the tokens that it adds, and, where there is room left, steps
/// forward by at least one token; one that does not cut is always sound.
pub proof fn law_sound_cuts_step_forward(max_length: usize, overlap: usize, added: usize)
    ensures
        cuts_soundly(None, Some(added)),
        cuts_soundly(Some((max_length, overlap)), Some(added)) <==> added <= max_length && (
        max_length - added == 0 || (max_length - added) - overlap >= 1),
        cuts_soundly(Some((max_length, overlap)), None) <==> cuts_soundly(
            Some((max_length, overlap)),
            Some(0),
        ),
{
}

/// A tokenizer is asked with the length that it is set to, and with no overlap where its own makes no
/// sense; so it then cuts soundly, unless it has no room for the tokens that it adds.
pub proof fn law_overlaps_are_dropped_where_they_make_no_sense(
    truncation: Option<(usize, usize)>,
    added: Option<usize>,
)
    ensures
        cuts_soundly(truncation, added) ==> cut_used(truncation, added) == truncation,
        truncation is None ==> cut_used(truncation, added) is None,
        truncation matches Some(p) ==> (cut_used(truncation, added) matches Some(q) && q.0 == p.0
            && (q == p || q.1 == 0)),
        truncation matches Some(p) ==> (added matches Some(n) ==> n <= p.0) ==> cuts_soundly(
            cut_used(truncation, added),
            added,
        ),
{
}

/// The names of the settings that are told apart below.
proof fn lemma_setting_names()
    ensures
        "Replace"@ != "Sequence"@,
        "Precompiled"@ != "Sequence"@,
        "Split"@ != "Sequence"@,
        "FixedLength"@ != "Sequence"@,
        "TemplateProcessing"@ != "Sequence"@,
{
    reveal_strlit("Replace");
    reveal_strlit("Precompiled");
    reveal_strlit("Split");
    reveal_strlit("FixedLength");
    reveal_strlit("TemplateProcessing");
    reveal_strlit("Sequence");
    assert("Replace"@.len() == 7 && "Precompiled"@.len() == 11 && "Split"@.len() == 5);
    assert("FixedLength"@.len() == 11 && "TemplateProcessing"@.len() == 18);
    assert("Sequence"@.len() == 8);
}

/// A normalizer that replaces by a pattern is not sound, nor is a pre-tokenizer that splits by one, nor
/// one that splits into pieces of no length.
pub proof fn law_patterns_are_not_sound(v: JsonView)
    ensures
        field(v, "type"@) == Some(JsonView::Str("Replace"@)) ==> !sound_normalizer(Some(v)),
        field(v, "type"@) == Some(JsonView::Str("Precompiled"@)) ==> !sound_normalizer(Some(v)),
        field(v, "type"@) == Some(JsonView::Str("Split"@)) ==> !sound_pre_tokenizer(Some(v)),
        field(v, "type"@) == Some(JsonView::Str("FixedLength"@)) && field(v, "length"@) == Some(
            JsonView::Number(decimal(0)),
        ) ==> !sound_pre_tokenizer(Some(v)),
{
    lemma_setting_names();
    lemma_other_names();
    if field(v, "type"@) == Some(JsonView::Str("Replace"@)) || field(v, "type"@) == Some(
        JsonView::Str("Precompiled"@),
    ) {
        assert(parts(v, "normalizers"@) == Some(seq![v]));
        assert(seq![v][0] == v);
        assert(!plain_normalizer(parts(v, "normalizers"@)->0[0]));
    }
    if field(v, "type"@) == Some(JsonView::Str("Split"@)) || field(v, "type"@) == Some(
        JsonView::Str("FixedLength"@),
    ) {
        assert(parts(v, "pretokenizers"@) == Some(seq![v]));
        assert(seq![v][0] == v);
        if field(v, "type"@) == Some(JsonView::Str("Split"@)) {
            assert(!plain_pre_tokenizer(parts(v, "pretokenizers"@)->0[0]));
        } else if field(v, "length"@) == Some(JsonView::Number(decimal(0))) {
            if positive(JsonView::Number(decimal(0))) {
                let k = choose|k: u64|
                    k > 0 && JsonView::Number(decimal(0)) == JsonView::Number(
                        #[trigger] decimal(k as nat),
                    );
                lemma_decimal_injective(0, k as nat);
            }
            assert(!plain_pre_tokenizer(parts(v, "pretokenizers"@)->0[0]));
        }
    }
}

proof fn lemma_other_names()
    ensures
        "Replace"@ != "BertNormalizer"@,
        "Replace"@ != "Strip"@,
        "Replace"@ != "StripAccents"@,
        "Replace"@ != "NFC"@,
        "Replace"@ != "NFD"@,
        "Replace"@ != "NFKC"@,
        "Replace"@ != "NFKD"@,
        "Replace"@ != "Lowercase"@,
        "Replace"@ != "Nmt"@,
        "Replace"@ != "ByteLevel"@,
        "Replace"@ != "Prepend"@,
        "Precompiled"@ != "BertNormalizer"@,
        "Precompiled"@ != "Strip"@,
        "Precompiled"@ != "StripAccents"@,
        "Precompiled"@ != "NFC"@,
        "Precompiled"@ != "NFD"@,
        "Precompiled"@ != "NFKC"@,
        "Precompiled"@ != "NFKD"@,
        "Precompiled"@ != "Lowercase"@,
        "Precompiled"@ != "Nmt"@,
        "Precompiled"@ != "ByteLevel"@,
        "Precompiled"@ != "Prepend"@,
        "Split"@ != "BertPreTokenizer"@,
        "Split"@ != "ByteLevel"@,
        "Split"@ != "CharDelimiterSplit"@,
        "Split"@ != "Metaspace"@,
        "Split"@ != "Whitespace"@,
        "Split"@ != "WhitespaceSplit"@,
        "Split"@ != "Punctuation"@,
        "Split"@ != "Digits"@,
        "Split"@ != "UnicodeScripts"@,
        "FixedLength"@ != "BertPreTokenizer"@,
        "FixedLength"@ != "ByteLevel"@,
        "FixedLength"@ != "CharDelimiterSplit"@,
        "FixedLength"@ != "Metaspace"@,
        "FixedLength"@ != "Whitespace"@,
        "FixedLength"@ != "WhitespaceSplit"@,
        "FixedLength"@ != "Punctuation"@,
        "FixedLength"@ != "Digits"@,
        "FixedLength"@ != "UnicodeScripts"@,
        "Split"@ != "FixedLength"@,
{
    reveal_strlit("Replace");
    reveal_strlit("Precompiled");
    reveal_strlit("Split");
    reveal_strlit("FixedLength");
    reveal_strlit("BertNormalizer");
    reveal_strlit("Strip");
    reveal_strlit("StripAccents");
    reveal_strlit("NFC");
    reveal_strlit("NFD");
    reveal_strlit("NFKC");
    reveal_strlit("NFKD");
    reveal_strlit("Lowercase");
    reveal_strlit("Nmt");
    reveal_strlit("ByteLevel");
    reveal_strlit("Prepend");
    reveal_strlit("BertPreTokenizer");
    reveal_strlit("CharDelimiterSplit");
    reveal_strlit("Metaspace");
    reveal_strlit("Whitespace");
    reveal_strlit("WhitespaceSplit");
    reveal_strlit("Punctuation");
    reveal_strlit("Digits");
    reveal_strlit("UnicodeScripts");
    assert("Replace"@.len() == 7);
    assert("Precompiled"@.len() == 11);
    assert("Split"@.len() == 5);
    assert("FixedLength"@.len() == 11);
    assert("BertNormalizer"@.len() == 14);
    assert("Strip"@.len() == 5);
    assert("StripAccents"@.len() == 12);
    assert("NFC"@.len() == 3);
    assert("NFD"@.len() == 3);
    assert("NFKC"@.len() == 4);
    assert("NFKD"@.len() == 4);
    assert("Lowercase"@.len() == 9);
    assert("Nmt"@.len() == 3);
    assert("ByteLevel"@.len() == 9);
    assert("Prepend"@.len() == 7);
    assert("BertPreTokenizer"@.len() == 16);
    assert("CharDelimiterSplit"@.len() == 18);
    assert("Metaspace"@.len() == 9);
    assert("Whitespace"@.len() == 10);
    assert("WhitespaceSplit"@.len() == 15);
    assert("Punctuation"@.len() == 11);
    assert("Digits"@.len() == 6);
    assert("UnicodeScripts"@.len() == 14);
    assert("Replace"@[0] == 'R' && "Prepend"@[0] == 'P');
    assert("FixedLength"@[0] == 'F' && "Punctuation"@[0] == 'P');
}

/// A sequence is made of the parts of its members, in their order; anything else is its own part.
pub proof fn law_sequences_are_made_of_their_members(
    v: JsonView,
    list: Seq<char>,
    members: Seq<JsonView>,
)
    ensures
        field(v, "type"@) != Some(JsonView::Str("Sequence"@)) ==> parts(v, list) == Some(seq![v]),
        field(v, "type"@) == Some(JsonView::Str("Sequence"@)) && field(v, list) is None ==> parts(
            v,
            list,
        ) is None,
        field(v, "type"@) == Some(JsonView::Str("Sequence"@)) && field(v, list) == Some(
            JsonView::Arr(members),
        ) ==> parts(v, list) == parts_of_first(members, members.len(), list),
        parts_of_first(members, 0, list) == Some(Seq::<JsonView>::empty()),
{
}

/// One more member adds its parts behind those of the members before it; a member without parts spoils
/// the sequence.
pub proof fn law_members_add_their_parts(members: Seq<JsonView>, n: nat, list: Seq<char>)
    requires
        n < members.len(),
    ensures
        parts_of_first(members, n, list) is Some && parts(members[n as int], list) is Some
            ==> parts_of_first(members, n + 1, list) == Some(
            parts_of_first(members, n, list)->0 + parts(members[n as int], list)->0,
        ),
        parts_of_first(members, n, list) is None || parts(members[n as int], list) is None
            ==> parts_of_first(members, n + 1, list) is None,
{
}

/// A template that speaks of a second text, or of a special token that it does not know, is not sound; a
/// template that is not sound makes no sound post-processor.
pub proof fn law_templates_speak_of_what_there_is(v: JsonView, pieces: Seq<JsonView>, i: int)
    requires
        field(v, "type"@) == Some(JsonView::Str("TemplateProcessing"@)),
        field(v, "single"@) == Some(JsonView::Arr(pieces)),
        0 <= i < pieces.len(),
        ({
            ||| exists|p: JsonView|
                field(pieces[i], "Sequence"@) == Some(p) && #[trigger] field(p, "id"@) != Some(
                    JsonView::Str("A"@),
                )
            ||| exists|p: JsonView, id: Seq<char>, tokens: JsonView|
                field(pieces[i], "Sequence"@) is None && field(pieces[i], "SpecialToken"@) == Some(
                    p,
                ) && #[trigger] field(p, "id"@) == Some(JsonView::Str(id)) && field(
                    v,
                    "special_tokens"@,
                ) == Some(tokens) && #[trigger] field(tokens, id) is None
        }),
    ensures
        !sound_template(v),
        !sound_processor(Some(v)),
{
    lemma_setting_names();
    lemma_processor_names();
    assert(!sound_template(v)) by {
        if sound_template(v) {
            let tokens = field(v, "special_tokens"@)->0;
            assert(sound_piece(pieces[i], tokens));
        }
    }
    assert(parts(v, "processors"@) == Some(seq![v]));
    assert(seq![v][0] == v);
    assert(!plain_processor(parts(v, "processors"@)->0[0]));
    assert(!template_processor(parts(v, "processors"@)->0[0]));
}

proof fn lemma_processor_names()
    ensures
        "TemplateProcessing"@ != "BertProcessing"@,
        "TemplateProcessing"@ != "RobertaProcessing"@,
        "TemplateProcessing"@ != "ByteLevel"@,
{
    reveal_strlit("TemplateProcessing");
    reveal_strlit("BertProcessing");
    reveal_strlit("RobertaProcessing");
    reveal_strlit("ByteLevel");
    assert("TemplateProcessing"@.len() == 18 && "BertProcessing"@.len() == 14);
    assert("RobertaProcessing"@.len() == 17 && "ByteLevel"@.len() == 9);
}

/// Added tokens are sound only if a normalizer leaves something of each, so each has a printing character
/// of ASCII; and never if one takes in the spaces on its left and one those on its right.
pub proof fn law_added_tokens_leave_something(
    normalizer: Option<JsonView>,
    texts: Set<Seq<char>>,
    sides: Set<(bool, bool)>,
    text: Seq<char>,
    a: (bool, bool),
    b: (bool, bool),
)
    ensures
        texts.contains(text) && normalizer != Some(JsonView::Null) && (forall|i: int|
            0 <= i < text.len() ==> !(33 <= #[trigger] text[i] as u32 <= 126)) ==> !sound_added(
            normalizer,
            texts,
            sides,
        ),
        sides.contains(a) && sides.contains(b) && a.0 && b.1 ==> !sound_added(
            normalizer,
            texts,
            sides,
        ),
{
    if texts.contains(text) && (forall|i: int|
        0 <= i < text.len() ==> !(33 <= #[trigger] text[i] as u32 <= 126)) {
        assert(!has_mark(text)) by {
            if has_mark(text) {
                let i = choose|i: int| 0 <= i < text.len() && '!' <= #[trigger] text[i] <= '~';
                assert(33 <= text[i] as u32 <= 126);
            }
        }
    }
}

/// A tokenizer is sound only if each of its settings is.
pub proof fn law_sound_tokenizers_have_sound_settings(t: Tokenizer)
    requires
        sound_tokenizer(t),
    ensures
        cuts_soundly(truncation_of(t), added_tokens_of(t)),
        fills_soundly(padding_of(t)),
        sound_normalizer(normalizer_of(t)),
        sound_pre_tokenizer(pre_tokenizer_of(t)),
        sound_processor(post_processor_of(t)),
        sound_added(normalizer_of(t), added_texts_of(t), added_sides_of(t)),
        normalizer_of(t) is Some,
        pre_tokenizer_of(t) is Some,
        post_processor_of(t) is Some,
{
}

/// An error of the tokenizer is told with its own reason.
pub proof fn law_tokenizer_errors_tell_the_reason(reason: String)
    ensures
        EmbedError::Encode(reason).words() == "tokenizer encode failed: "@ + reason@,
        EmbedError::Unsound.words()
            == "tokenizer encode failed: settings that cannot encode every text"@,
{
}

/// What has no normalizer, pre-tokenizer or post-processor is sound in that, and so is any that is of one
/// of the kinds that handle every text; a piece's length is one at least.
pub proof fn law_common_settings_are_sound(v: JsonView, n: u64)
    requires
        n >= 1,
    ensures
        sound_normalizer(Some(JsonView::Null)),
        sound_pre_tokenizer(Some(JsonView::Null)),
        sound_processor(Some(JsonView::Null)),
        !sound_normalizer(None),
        !sound_pre_tokenizer(None),
        !sound_processor(None),
        field(v, "type"@) == Some(JsonView::Str("BertNormalizer"@)) ==> sound_normalizer(Some(v)),
        field(v, "type"@) == Some(JsonView::Str("Lowercase"@)) ==> sound_normalizer(Some(v)),
        field(v, "type"@) == Some(JsonView::Str("NFC"@)) ==> sound_normalizer(Some(v)),
        field(v, "type"@) == Some(JsonView::Str("BertPreTokenizer"@)) ==> sound_pre_tokenizer(
            Some(v),
        ),
        field(v, "type"@) == Some(JsonView::Str("Whitespace"@)) ==> sound_pre_tokenizer(Some(v)),
        field(v, "type"@) == Some(JsonView::Str("ByteLevel"@)) ==> sound_pre_tokenizer(Some(v))
            && sound_normalizer(Some(v)) && sound_processor(Some(v)),
        field(v, "type"@) == Some(JsonView::Str("FixedLength"@)) && field(v, "length"@) == Some(
            JsonView::Number(decimal(n as nat)),
        ) ==> sound_pre_tokenizer(Some(v)),
        field(v, "type"@) == Some(JsonView::Str("BertProcessing"@)) ==> sound_processor(Some(v)),
        field(v, "type"@) == Some(JsonView::Str("RobertaProcessing"@)) ==> sound_processor(Some(v)),
        field(v, "type"@) == Some(JsonView::Str("TemplateProcessing"@)) && sound_template(v)
            ==> sound_processor(Some(v)),
{
    lemma_setting_names();
    lemma_not_sequences();
    if field(v, "type"@) != Some(JsonView::Str("Sequence"@)) {
        assert(parts(v, "normalizers"@) == Some(seq![v]));
        assert(parts(v, "pretokenizers"@) == Some(seq![v]));
        assert(parts(v, "processors"@) == Some(seq![v]));
    }
    assert(positive(JsonView::Number(decimal(n as nat))));
}

proof fn lemma_not_sequences()
    ensures
        "BertNormalizer"@ != "Sequence"@,
        "Lowercase"@ != "Sequence"@,
        "NFC"@ != "Sequence"@,
        "BertPreTokenizer"@ != "Sequence"@,
        "Whitespace"@ != "Sequence"@,
        "ByteLevel"@ != "Sequence"@,
        "BertProcessing"@ != "Sequence"@,
        "RobertaProcessing"@ != "Sequence"@,
{
    reveal_strlit("BertNormalizer");
    reveal_strlit("Lowercase");
    reveal_strlit("NFC");
    reveal_strlit("BertPreTokenizer");
    reveal_strlit("Whitespace");
    reveal_strlit("ByteLevel");
    reveal_strlit("BertProcessing");
    reveal_strlit("RobertaProcessing");
    reveal_strlit("Sequence");
    assert("BertNormalizer"@.len() == 14 && "Lowercase"@.len() == 9 && "NFC"@.len() == 3);
    assert("BertPreTokenizer"@.len() == 16 && "Whitespace"@.len() == 10);
    assert("ByteLevel"@.len() == 9 && "BertProcessing"@.len() == 14);
    assert("RobertaProcessing"@.len() == 17 && "Sequence"@.len() == 8);
}

/// A template is sound if each of its pieces is the one text or a special token that it knows.
pub proof fn law_templates_of_known_pieces_are_sound(
    v: JsonView,
    pieces: Seq<JsonView>,
    tokens: JsonView,
)
    requires
        field(v, "single"@) == Some(JsonView::Arr(pieces)),
        field(v, "special_tokens"@) == Some(tokens),
        forall|i: int|
            0 <= i < pieces.len() ==> ({
                ||| (field(#[trigger] pieces[i], "Sequence"@) matches Some(p) && field(p, "id"@)
                    == Some(JsonView::Str("A"@)))
                ||| (field(pieces[i], "Sequence"@) is None && (field(
                    pieces[i],
                    "SpecialToken"@,
                ) matches Some(p) && (field(p, "id"@) matches Some(JsonView::Str(id)) && field(
                    tokens,
                    id,
                ) is Some)))
            }),
    ensures
        sound_template(v),
{
    assert forall|i: int| 0 <= i < pieces.len() implies sound_piece(
        #[trigger] pieces[i],
        tokens,
    ) by {}
}

/// Of two templates among the parts of a post-processor one is too many.
pub proof fn law_one_template_at_most(v: JsonView, p: Seq<JsonView>, i: int, j: int)
    requires
        !(v is Null),
        parts(v, "processors"@) == Some(p),
        0 <= i < j < p.len(),
        field(p[i], "type"@) == Some(JsonView::Str("TemplateProcessing"@)),
        field(p[j], "type"@) == Some(JsonView::Str("TemplateProcessing"@)),
    ensures
        !sound_processor(Some(v)),
{
    lemma_processor_names();
    assert(!plain_processor(parts(v, "processors"@)->0[i]));
    assert(!plain_processor(parts(v, "processors"@)->0[j]));
}

/// Added tokens are sound if each has a character from `!` to `~`, or there is no normalizer, and all that
/// take in spaces do so on the same side.
pub proof fn law_common_added_tokens_are_sound(
    normalizer: Option<JsonView>,
    texts: Set<Seq<char>>,
    sides: Set<(bool, bool)>,
)
    requires
        normalizer == Some(JsonView::Null) || forall|s: Seq<char>| #[trigger]
            texts.contains(s) ==> exists|i: int|
                0 <= i < s.len() && '!' <= #[trigger] s[i] && s[i] <= '~',
        (forall|a: (bool, bool)| #[trigger] sides.contains(a) ==> !a.0) || (forall|
            a: (bool, bool),
        | #[trigger]
            sides.contains(a) ==> !a.1),
    ensures
        sound_added(normalizer, texts, sides),
{
    if normalizer != Some(JsonView::Null) {
        assert forall|s: Seq<char>| #[trigger] texts.contains(s) implies has_mark(s) by {
            let i = choose|i: int|
                0 <= i < s.len() && '!' <= #[trigger] s[i] && s[i] <= '~';
            assert('!' <= s[i] <= '~');
        }
    }
}

/// A tokenizer all of whose settings are sound is sound; and one with the same settings is as sound as
/// another.
pub proof fn law_settings_decide_soundness(a: Tokenizer, b: Tokenizer)
    ensures
        cuts_soundly(truncation_of(a), added_tokens_of(a)) && fills_soundly(padding_of(a))
            && sound_normalizer(normalizer_of(a)) && sound_pre_tokenizer(pre_tokenizer_of(a))
            && sound_processor(post_processor_of(a)) && sound_added(
            normalizer_of(a),
            added_texts_of(a),
            added_sides_of(a),
        ) ==> sound_tokenizer(a),
        same_settings(a, b) ==> {
            &&& truncation_of(a) == truncation_of(b)
            &&& added_tokens_of(a) == added_tokens_of(b)
            &&& padding_of(a) == padding_of(b)
            &&& normalizer_of(a) == normalizer_of(b)
            &&& pre_tokenizer_of(a) == pre_tokenizer_of(b)
            &&& post_processor_of(a) == post_processor_of(b)
            &&& added_texts_of(a) == added_texts_of(b)
            &&& added_sides_of(a) == added_sides_of(b)
            &&& sound_tokenizer(a) == sound_tokenizer(b)
        },
{
}

/// A tokenizer may fill up to any length that leaves the machine room to count.
pub proof fn law_lengths_that_fit_are_filled_up(size: usize, multiple: usize)
    ensures
        fills_soundly(None),
        size <= usize::MAX / 256 && multiple <= usize::MAX / 256 ==> fills_soundly(
            Some((Some(size), Some(multiple))),
        ),
        fills_soundly(Some((Some(size), Some(multiple)))) ==> size + multiple <= usize::MAX,
        fills_soundly(Some((None, Some(multiple)))) <==> fills_soundly(
            Some((Some(0), Some(multiple))),
        ),
        fills_soundly(Some((None, None))),
{
}

} // verus!
