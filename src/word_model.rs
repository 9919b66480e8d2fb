use vstd::prelude::*;
use crate::encoding::{full_attention_mask, is_full_mask};

verus! {

/// Why an inference step could not run.
#[derive(Debug, PartialEq, Eq, Structural)]
pub enum ModelError {
    /// No model has been set up yet.
    NotInitialized,
    /// The input holds no token, so no tensor can be shaped from it.
    EmptyInput,
}

/// One slot for a runnable model, and the artifact it was built from.
pub struct ModelSlot<M> {
    model: Option<M>,
    source: Ghost<Option<Seq<u8>>>,
}

/// What a slot holds after a construction attempt on `b` over a slot that
/// held `s`: the new artifact if construction succeeded, else the old one.
pub open spec fn after_install(s: Option<Seq<u8>>, b: Seq<u8>, built: bool) -> Option<Seq<u8>> {
    if built {
        Some(b)
    } else {
        s
    }
}

impl<M> ModelSlot<M> {
    pub closed spec fn wf(&self) -> bool {
        self.model.is_some() == self.source@.is_some()
    }

    /// The artifact the current model was built from, if any.
    pub closed spec fn source(&self) -> Option<Seq<u8>> {
        self.source@
    }

    pub closed spec fn model_spec(&self) -> Option<M> {
        self.model
    }

    pub open spec fn is_loaded(&self) -> bool {
        self.source().is_some()
    }

    /// A slot with no model.
    pub fn new() -> (r: ModelSlot<M>)
        ensures
            r.wf(),
            r.source() == None::<Seq<u8>>,
    {
        ModelSlot { model: None, source: Ghost(None) }
    }

    /// Installs the outcome of building a model from `bytes`: a built model
    /// replaces the current one, a failed build leaves the slot untouched and
    /// hands its message back.
    pub fn install(&mut self, bytes: &[u8], built: Result<M, String>) -> (r: Result<(), String>)
        requires
            old(self).wf(),
        ensures
            final(self).wf(),
            r is Ok <==> built is Ok,
            final(self).source() == after_install(old(self).source(), bytes@, built is Ok),
            built matches Ok(m) ==> final(self).model_spec() == Some(m),
            built matches Err(e) ==> (r matches Err(e2) && e2@ == e@ && *final(self) == *old(self)),
    {
        match built {
            Ok(m) => {
                self.model = Some(m);
                self.source = Ghost(Some(bytes@));
                Ok(())
            },
            Err(e) => Err(e),
        }
    }

    /// The current model, if one has been set up.
    pub fn model(&self) -> (r: Option<&M>)
        requires
            self.wf(),
        ensures
            r is Some <==> self.is_loaded(),
            r matches Some(m) ==> self.model_spec() == Some(*m),
    {
        self.model.as_ref()
    }

    /// The two rank-two inputs of batch one that the model runs on: the ids as
    /// given and a mask of ones over every token.
    pub fn inputs_for(&self, input_ids: &[i64]) -> (r: Result<(Vec<i64>, Vec<i64>), ModelError>)
        requires
            self.wf(),
        ensures
            !self.is_loaded() ==> r == Err::<(Vec<i64>, Vec<i64>), ModelError>(ModelError::NotInitialized),
            self.is_loaded() && input_ids@.len() == 0 ==> r == Err::<(Vec<i64>, Vec<i64>), ModelError>(ModelError::EmptyInput),
            self.is_loaded() && input_ids@.len() > 0 ==> (r matches Ok((ids, mask)) && ids@ == input_ids@
                && is_full_mask(ids@, mask@)),
    {
        if self.model.is_none() {
            return Err(ModelError::NotInitialized);
        }
        if input_ids.len() == 0 {
            return Err(ModelError::EmptyInput);
        }
        let mut ids: Vec<i64> = Vec::new();
        let mut i: usize = 0;
        while i < input_ids.len()
            invariant
                i <= input_ids@.len(),
                ids@ == input_ids@.subrange(0, i as int),
            decreases input_ids@.len() - i,
        {
            ids.push(input_ids[i]);
            proof {
                assert(input_ids@.subrange(0, i + 1) =~= input_ids@.subrange(0, i as int).push(input_ids@[i as int]));
            }
            i = i + 1;
        }
        proof {
            assert(input_ids@.subrange(0, input_ids@.len() as int) =~= input_ids@);
        }
        let mask = full_attention_mask(ids.len());
        Ok((ids, mask))
    }
}

/// Installing the outcome of the same construction twice in a row leaves the
/// slot as installing it once did.
pub proof fn lemma_install_idempotent(s: Option<Seq<u8>>, b: Seq<u8>, built: bool)
    ensures
        after_install(after_install(s, b, built), b, built) == after_install(s, b, built),
{
}

} // verus!
