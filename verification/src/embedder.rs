//! What is handed to the embedding model, and which of its output rows make up an embedding.
//!
//! A text's tokens go in, one row of numbers per token comes out. The embedding is the mean of the
//! rows whose token counts, brought to length one; that arithmetic is the program's around the
//! library.

use crate::tokenizer::{may_encode, sound_tokenizer, EmbedError, TextTokenizer, Tokens};
use tokenizers::Tokenizer;
use vstd::prelude::*;

verus! {

/// The length of an embedding.
pub const EMBEDDING_DIMS: usize = 384;

/// The model's input.
#[derive(Debug)]
pub struct ModelInput {
    pub ids: Vec<i64>,
    pub attention_mask: Vec<i64>,
    pub type_ids: Vec<i64>,
}

/// Numbers in the width that the model takes.
pub open spec fn widened(v: Seq<u32>) -> Seq<i64> {
    v.map_values(|x: u32| x as i64)
}

fn widen(v: &Vec<u32>) -> (r: Vec<i64>)
    ensures
        r@ == widened(v@),
{
    let mut r: Vec<i64> = Vec::new();
    let mut i: usize = 0;
    while i < v.len()
        invariant
            i <= v@.len(),
            r@ == widened(v@.take(i as int)),
        decreases v@.len() - i,
    {
        r.push(v[i] as i64);
        assert(v@.take(i + 1) == v@.take(i as int).push(v@[i as int]));
        assert(widened(v@.take(i + 1)) == widened(v@.take(i as int)).push(v@[i as int] as i64));
        i = i + 1;
    }
    assert(v@.take(v@.len() as int) == v@);
    r
}

/// The model's input for the tokens of a text; none if there are no tokens, whose embedding is all
/// zeros.
pub fn model_input(tokens: &Tokens) -> (r: Option<ModelInput>)
    ensures
        r is None <==> tokens.ids@.len() == 0,
        r matches Some(m) ==> {
            &&& m.ids@ == widened(tokens.ids@)
            &&& m.attention_mask@ == widened(tokens.attention_mask@)
            &&& m.type_ids@ == widened(tokens.type_ids@)
        },
{
    if tokens.ids.len() == 0 {
        return None;
    }
    Some(
        ModelInput {
            ids: widen(&tokens.ids),
            attention_mask: widen(&tokens.attention_mask),
            type_ids: widen(&tokens.type_ids),
        },
    )
}

/// The input is what is made of tokens that the tokenizer may make of the text.
pub open spec fn input_for(t: Tokenizer, text: Seq<char>, m: Option<ModelInput>) -> bool {
    exists|ids: Seq<u32>, mask: Seq<u32>, types: Seq<u32>|
        {
            &&& #[trigger] may_encode(t, text, ids, mask, types)
            &&& m is None <==> ids.len() == 0
            &&& m matches Some(m) ==> {
                &&& m.ids@ == widened(ids)
                &&& m.attention_mask@ == widened(mask)
                &&& m.type_ids@ == widened(types)
            }
        }
}

/// The model's input for a text, or why the tokenizer gave no tokens.
pub fn text_input(tokenizer: &TextTokenizer, text: &str) -> (r: Result<
    Option<ModelInput>,
    EmbedError,
>)
    ensures
        match r {
            Ok(m) => sound_tokenizer(tokenizer.tokenizer()) && input_for(
                tokenizer.tokenizer(),
                text@,
                m,
            ),
            Err(EmbedError::Unsound) => !sound_tokenizer(tokenizer.tokenizer()),
            Err(EmbedError::Encode(_)) => sound_tokenizer(tokenizer.tokenizer()),
        },
{
    match tokenizer.tokens(text) {
        Ok(tokens) => Ok(model_input(&tokens)),
        Err(e) => Err(e),
    }
}

/// The offsets of the output rows of the tokens that count, in an output of rows of a length.
pub open spec fn row_offsets(mask: Seq<i64>, row_len: nat) -> Seq<nat>
    decreases mask.len(),
{
    if mask.len() == 0 {
        seq![]
    } else {
        let before = row_offsets(mask.drop_last(), row_len);
        if mask.last() == 1 {
            before.push(((mask.len() - 1) * row_len) as nat)
        } else {
            before
        }
    }
}

/// Where the rows that make up the embedding start in the model's output.
pub fn pooled_rows(mask: &Vec<i64>, row_len: usize) -> (rows: Vec<usize>)
    requires
        mask@.len() * row_len <= usize::MAX,
    ensures
        rows@.map_values(|x: usize| x as nat) == row_offsets(mask@, row_len as nat),
{
    let mut rows: Vec<usize> = Vec::new();
    let mut i: usize = 0;
    while i < mask.len()
        invariant
            mask@.len() * row_len <= usize::MAX,
            i <= mask@.len(),
            rows@.map_values(|x: usize| x as nat) == row_offsets(
                mask@.take(i as int),
                row_len as nat,
            ),
        decreases mask@.len() - i,
    {
        let ghost before = rows@.map_values(|x: usize| x as nat);
        assert(mask@.take(i + 1).drop_last() == mask@.take(i as int));
        assert(i * row_len <= mask@.len() * row_len) by (nonlinear_arith)
            requires
                i <= mask@.len(),
        ;
        if mask[i] == 1 {
            rows.push(i * row_len);
            assert(rows@.map_values(|x: usize| x as nat) == before.push((i * row_len) as nat));
        }
        i = i + 1;
    }
    assert(mask@.take(mask@.len() as int) == mask@);
    rows
}

/// The model gets every number as it is, in its place.
pub proof fn law_numbers_are_widened_in_place(v: Seq<u32>, i: int)
    ensures
        widened(v).len() == v.len(),
        0 <= i < v.len() ==> widened(v)[i] == v[i],
{
}

/// The rows that make up an embedding are those of the tokens that count, in their order: a token that
/// counts adds the row at its own place behind those before it, and one that does not adds none.
pub proof fn law_rows_of_tokens_that_count(mask: Seq<i64>, m: i64, row_len: nat)
    ensures
        row_offsets(Seq::<i64>::empty(), row_len).len() == 0,
        m == 1 ==> row_offsets(mask.push(m), row_len) == row_offsets(mask, row_len) + seq![
            (mask.len() * row_len) as nat,
        ],
        m != 1 ==> row_offsets(mask.push(m), row_len) == row_offsets(mask, row_len),
{
    assert(mask.push(m).drop_last() == mask);
    assert(row_offsets(mask, row_len).push((mask.len() * row_len) as nat) == row_offsets(
        mask,
        row_len,
    ) + seq![(mask.len() * row_len) as nat]);
}

/// The input that a model is given for a text are the tokens that the tokenizer may make of it, each
/// number in its place; there is none only if the text has no tokens.
pub proof fn law_inputs_are_the_tokens_of_the_text(t: Tokenizer, text: Seq<char>, m: ModelInput)
    requires
        input_for(t, text, Some(m)),
    ensures
        exists|ids: Seq<u32>, mask: Seq<u32>, types: Seq<u32>|
            {
                &&& #[trigger] may_encode(t, text, ids, mask, types)
                &&& ids.len() > 0
                &&& m.ids@.len() == ids.len()
                &&& m.attention_mask@.len() == mask.len()
                &&& m.type_ids@.len() == types.len()
                &&& forall|i: int| 0 <= i < ids.len() ==> #[trigger] m.ids@[i] == ids[i]
                &&& forall|i: int|
                    0 <= i < mask.len() ==> #[trigger] m.attention_mask@[i] == mask[i]
                &&& forall|i: int| 0 <= i < types.len() ==> #[trigger] m.type_ids@[i] == types[i]
            },
{
    let (ids, mask, types) = choose|ids: Seq<u32>, mask: Seq<u32>, types: Seq<u32>|
        {
            &&& #[trigger] may_encode(t, text, ids, mask, types)
            &&& ids.len() > 0
            &&& m.ids@ == widened(ids)
            &&& m.attention_mask@ == widened(mask)
            &&& m.type_ids@ == widened(types)
        };
    assert(may_encode(t, text, ids, mask, types));
}

/// A text without input has no tokens.
pub proof fn law_no_input_is_no_tokens(t: Tokenizer, text: Seq<char>)
    requires
        input_for(t, text, None),
    ensures
        exists|ids: Seq<u32>, mask: Seq<u32>, types: Seq<u32>| #[trigger]
            may_encode(t, text, ids, mask, types) && ids.len() == 0,
{
}

} // verus!
