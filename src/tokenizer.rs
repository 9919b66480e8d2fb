use vstd::prelude::*;
use tokenizers::Tokenizer;
use crate::encoding::{encoding_wf, full_attention_mask, TokenizerEncoding, TokenizerResult};
use crate::word_model::ModelSlot;

verus! {

#[verifier::external_type_specification]
#[verifier::external_body]
pub struct ExTokenizer(tokenizers::Tokenizer);

/// Whether a serialized tokenizer artifact is accepted when loaded.
pub uninterp spec fn tokenizer_json_accepted(b: Seq<u8>) -> bool;

/// Relies on `tokenizers::Tokenizer::from_bytes`, which deserializes the bytes
/// as JSON with `serde_json::from_slice`: success depends on the bytes alone.
#[verifier::external_body]
fn tokenizer_from_bytes(bytes: &[u8]) -> (r: Result<Tokenizer, String>)
    ensures
        r is Ok <==> tokenizer_json_accepted(bytes@),
{
    Tokenizer::from_bytes(bytes).map_err(|e| e.to_string())
}

/// Relies on `TokenizerImpl::with_truncation`, reached through `Tokenizer`'s
/// `DerefMut`: with `None` it stores no truncation and always returns `Ok`.
#[verifier::external_body]
fn disable_truncation(t: &mut Tokenizer) {
    let _ = t.with_truncation(None);
}

/// Relies on `TokenizerImpl::with_padding`, reached through `Tokenizer`'s
/// `DerefMut`: with `None` it stores no padding.
#[verifier::external_body]
fn disable_padding(t: &mut Tokenizer) {
    t.with_padding(None);
}

/// A loaded tokenizer with neither truncation nor padding configured: this
/// design has no truncation or padding policy, so every token is kept and
/// masked in. Only `plain_tokenizer` builds one.
pub struct PlainTokenizer {
    inner: Tokenizer,
}

/// Switches truncation and padding off on a freshly loaded tokenizer.
fn plain_tokenizer(t: Tokenizer) -> PlainTokenizer {
    let mut t = t;
    disable_truncation(&mut t);
    disable_padding(&mut t);
    PlainTokenizer { inner: t }
}

/// Relies on `tokenizers::Tokenizer::encode` with special tokens added, and on
/// `Encoding::get_tokens` and `Encoding::get_ids` of its result. The tokenizer
/// has no truncation configured, so `post_process` never takes the branch
/// that subtracts the count of added tokens from a maximum length.
#[verifier::external_body]
fn encode_text(t: &PlainTokenizer, text: &str) -> (r: Result<(Vec<String>, Vec<u32>), String>) {
    t.inner.encode(text, true)
        .map(|e| (e.get_tokens().to_vec(), e.get_ids().to_vec()))
        .map_err(|e| e.to_string())
}

/// Relies on `<[&str]>::concat`: the pieces joined in order.
#[verifier::external_body]
fn concat_str(a: &str, b: &str) -> (r: String)
    ensures
        r@ == a@ + b@,
{
    [a, b].concat()
}

/// What precedes an error reported by the tokenizer.
pub open spec fn encoder_error_prefix() -> Seq<char> {
    "Tokenizer error: "@
}

/// The message returned when no tokenizer has been loaded yet.
pub open spec fn not_initialized_message() -> Seq<char> {
    "Tokenizer not initialized"@
}

/// The message returned when a tokenizer reports tokens and ids that do not pair up.
pub open spec fn mismatch_message() -> Seq<char> {
    "Tokenizer returned unequal token and id counts"@
}

/// The ids widened to the signed type that the encoding carries.
pub open spec fn widened(ids: Seq<u32>) -> Seq<i64> {
    Seq::new(ids.len(), |i: int| ids[i] as i64)
}

/// Turns what the tokenizer returned into a tokenization result.
pub fn result_from_encoded(out: Result<(Vec<String>, Vec<u32>), String>) -> (r: TokenizerResult)
    ensures
        match out {
            Ok((tokens, ids)) => if tokens@.len() == ids@.len() {
                r matches TokenizerResult::Encoded(e) && e.tokens@ == tokens@ && e.input_ids@
                    == widened(ids@) && encoding_wf(e)
            } else {
                r matches TokenizerResult::Failed(m) && m@ == mismatch_message()
            },
            Err(msg) => r matches TokenizerResult::Failed(m) && m@ == encoder_error_prefix() + msg@,
        },
{
    match out {
        Ok((tokens, ids)) => {
            if tokens.len() != ids.len() {
                proof { reveal_strlit("Tokenizer returned unequal token and id counts"); }
                return TokenizerResult::Failed("Tokenizer returned unequal token and id counts".to_owned());
            }
            let mut input_ids: Vec<i64> = Vec::new();
            let mut i: usize = 0;
            while i < ids.len()
                invariant
                    i <= ids@.len(),
                    input_ids@ == widened(ids@).subrange(0, i as int),
                decreases ids@.len() - i,
            {
                input_ids.push(ids[i] as i64);
                proof {
                    assert(widened(ids@).subrange(0, i + 1) =~= widened(ids@).subrange(0, i as int).push(ids@[i as int] as i64));
                }
                i = i + 1;
            }
            proof {
                assert(widened(ids@).subrange(0, ids@.len() as int) =~= widened(ids@));
            }
            let attention_mask = full_attention_mask(input_ids.len());
            TokenizerResult::Encoded(TokenizerEncoding { tokens, input_ids, attention_mask })
        },
        Err(msg) => {
            proof { reveal_strlit("Tokenizer error: "); }
            TokenizerResult::Failed(concat_str("Tokenizer error: ", msg.as_str()))
        },
    }
}

/// What a tokenizer slot holds after loading `b` over a slot that held `s`:
/// the new artifact if it is accepted, else the previous one untouched.
pub open spec fn after_setup(s: Option<Seq<u8>>, b: Seq<u8>) -> Option<Seq<u8>> {
    if tokenizer_json_accepted(b) {
        Some(b)
    } else {
        s
    }
}

/// The loaded tokenizer, if any, and the artifact it was built from.
pub struct TokenizerState {
    slot: ModelSlot<PlainTokenizer>,
}

impl View for TokenizerState {
    type V = Option<Seq<u8>>;

    closed spec fn view(&self) -> Option<Seq<u8>> {
        self.slot.source()
    }
}

impl TokenizerState {
    pub closed spec fn wf(&self) -> bool {
        self.slot.wf()
    }

    pub open spec fn is_loaded(&self) -> bool {
        self@.is_some()
    }

    /// A slot with no tokenizer loaded.
    pub fn new() -> (r: TokenizerState)
        ensures
            r.wf(),
            r@ == None::<Seq<u8>>,
    {
        TokenizerState { slot: ModelSlot::new() }
    }

    /// Builds a tokenizer from a complete artifact and installs it in place of
    /// the current one; on failure the current one, if any, is left in place.
    pub fn setup_tokenizer(&mut self, bytes: &[u8]) -> (r: Result<(), String>)
        requires
            old(self).wf(),
        ensures
            final(self).wf(),
            r is Ok <==> tokenizer_json_accepted(bytes@),
            final(self)@ == after_setup(old(self)@, bytes@),
            r is Err ==> *final(self) == *old(self),
    {
        let built = match tokenizer_from_bytes(bytes) {
            Ok(t) => Ok(plain_tokenizer(t)),
            Err(e) => Err(e),
        };
        self.slot.install(bytes, built)
    }

    /// Tokenizes `text` with the loaded tokenizer. Empty text gives the empty
    /// encoding; other text goes to the tokenizer, whose errors are reported
    /// after a fixed prefix.
    pub fn tokenize(&self, text: &str) -> (r: TokenizerResult)
        requires
            self.wf(),
        ensures
            !self.is_loaded() ==> (r matches TokenizerResult::Failed(m) && m@
                == not_initialized_message()),
            self.is_loaded() ==> !(r matches TokenizerResult::Failed(m) && m@
                == not_initialized_message()),
            self.is_loaded() && text@.len() == 0 ==> (r matches TokenizerResult::Encoded(e)
                && e.tokens@.len() == 0 && e.input_ids@.len() == 0 && e.attention_mask@.len() == 0),
            self.is_loaded() ==> (r matches TokenizerResult::Failed(m) ==> (m@ == mismatch_message()
                || exists|msg: Seq<char>| m@ == encoder_error_prefix() + msg)),
            r matches TokenizerResult::Encoded(e) ==> encoding_wf(e),
    {
        proof {
            reveal_strlit("Tokenizer not initialized");
            reveal_strlit("Tokenizer error: ");
            reveal_strlit("Tokenizer returned unequal token and id counts");
        }
        match self.slot.model() {
            None => TokenizerResult::Failed("Tokenizer not initialized".to_owned()),
            Some(t) => {
                if text.is_empty() {
                    let e = TokenizerEncoding {
                        tokens: Vec::new(),
                        input_ids: Vec::new(),
                        attention_mask: Vec::new(),
                    };
                    return TokenizerResult::Encoded(e);
                }
                let out = encode_text(t, text);
                let ghost out_g = out;
                let r = result_from_encoded(out);
                let ghost r_g = r;
                proof {
                    if let TokenizerResult::Failed(m) = r_g {
                        if let Err(msg) = out_g {
                            assert(m@[10] == 'e');
                        } else {
                            assert(m@[10] == 'r');
                        }
                        assert(not_initialized_message()[10] == 'n');
                    }
                }
                r
            },
        }
    }
}

/// Loading the same artifact twice in a row leaves the slot as loading it once did.
pub proof fn lemma_setup_idempotent(s: Option<Seq<u8>>, b: Seq<u8>)
    ensures
        after_setup(after_setup(s, b), b) == after_setup(s, b),
{
}

} // verus!
