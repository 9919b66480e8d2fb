use vstd::prelude::*;

verus! {

/// A named byte buffer that only grows by appending, until it is cleared.
pub struct Blob {
    bytes: Vec<u8>,
}

impl View for Blob {
    type V = Seq<u8>;

    closed spec fn view(&self) -> Seq<u8> {
        self.bytes@
    }
}

impl Blob {
    /// An empty blob.
    pub fn new() -> (r: Blob)
        ensures
            r@ == Seq::<u8>::empty(),
    {
        Blob { bytes: Vec::new() }
    }

    /// Concatenates `chunk` onto the current content.
    pub fn append(&mut self, chunk: &[u8])
        ensures
            final(self)@ == after_append(old(self)@, chunk@),
    {
        let mut i: usize = 0;
        while i < chunk.len()
            invariant
                i <= chunk@.len(),
                self@ == old(self)@ + chunk@.subrange(0, i as int),
            decreases chunk@.len() - i,
        {
            self.bytes.push(chunk[i]);
            proof {
                assert(chunk@.subrange(0, i + 1) == chunk@.subrange(0, i as int).push(chunk@[i as int]));
            }
            i = i + 1;
        }
        proof {
            assert(chunk@.subrange(0, chunk@.len() as int) == chunk@);
        }
    }

    /// Resets the content to empty.
    pub fn clear(&mut self)
        ensures
            final(self)@ == Seq::<u8>::empty(),
    {
        self.bytes = Vec::new();
    }

    /// A full snapshot of the current content.
    pub fn materialize(&self) -> (r: Vec<u8>)
        ensures
            r@ == self@,
    {
        self.bytes.clone()
    }
}

/// What a blob holds after appending `chunk` to content `s`.
pub open spec fn after_append(s: Seq<u8>, chunk: Seq<u8>) -> Seq<u8> {
    s + chunk
}

/// Starting from a new or cleared blob, two appends leave exactly the
/// concatenation of the two chunks.
pub proof fn lemma_two_appends_after_clear(b1: Seq<u8>, b2: Seq<u8>)
    ensures
        after_append(after_append(Seq::<u8>::empty(), b1), b2) == b1 + b2,
{
    assert(after_append(after_append(Seq::<u8>::empty(), b1), b2) =~= b1 + b2);
}

} // verus!
