use vstd::prelude::*;

verus! {

/// Token strings, vocabulary ids and attention mask produced for one text.
pub struct TokenizerEncoding {
    pub tokens: Vec<String>,
    pub input_ids: Vec<i64>,
    pub attention_mask: Vec<i64>,
}

/// The outcome of tokenizing a text.
pub enum TokenizerResult {
    Encoded(TokenizerEncoding),
    Failed(String),
}

/// The outcome of decoding ids back into tokens.
pub enum DecodingResult {
    Decoded(Vec<String>),
    Failed(String),
}

/// A mask of all ones, one per token: no padding or truncation exists.
pub open spec fn is_full_mask(ids: Seq<i64>, mask: Seq<i64>) -> bool {
    &&& mask.len() == ids.len()
    &&& forall|i: int| 0 <= i < mask.len() ==> mask[i] == 1
}

/// An encoding whose three sequences have equal length and whose mask is all ones.
pub open spec fn encoding_wf(e: TokenizerEncoding) -> bool {
    &&& e.tokens@.len() == e.input_ids@.len()
    &&& is_full_mask(e.input_ids@, e.attention_mask@)
}

/// Builds the all-ones attention mask for `n` tokens.
pub fn full_attention_mask(n: usize) -> (r: Vec<i64>)
    ensures
        r@.len() == n,
        forall|i: int| 0 <= i < n ==> r@[i] == 1,
{
    let mut r: Vec<i64> = Vec::new();
    let mut i: usize = 0;
    while i < n
        invariant
            i <= n,
            r@.len() == i,
            forall|j: int| 0 <= j < i ==> r@[j] == 1,
        decreases n - i,
    {
        r.push(1);
        i = i + 1;
    }
    r
}

/// Assembles an encoding from a tokenizer's tokens and ids, with the mask
/// that covers every token.
pub fn encoding_from_parts(tokens: Vec<String>, input_ids: Vec<i64>) -> (r: TokenizerEncoding)
    requires
        tokens@.len() == input_ids@.len(),
    ensures
        r.tokens@ == tokens@,
        r.input_ids@ == input_ids@,
        encoding_wf(r),
{
    let n = input_ids.len();
    let attention_mask = full_attention_mask(n);
    TokenizerEncoding { tokens, input_ids, attention_mask }
}

} // verus!
