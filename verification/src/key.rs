use vstd::prelude::*;

verus! {

/// An owned, fixed-length sequence of key bytes.
///
/// A key is created zero-filled at its final length and its bytes are then
/// overwritten one per protocol round, in index order. The type is move-only:
/// handing a key to another owner (for instance through a delivery channel)
/// transfers it, leaving no copy behind.
pub struct Key {
    pub value: Vec<u8>,
}

impl View for Key {
    type V = Seq<u8>;

    open spec fn view(&self) -> Seq<u8> {
        self.value@
    }
}

impl Key {
    /// Allocates a zero-filled key of exactly `length` bytes.
    pub fn from(length: usize) -> (k: Key)
        ensures
            k@.len() == length,
            forall|i: int| 0 <= i < length ==> k@[i] == 0u8,
    {
        let mut value: Vec<u8> = Vec::new();
        while value.len() < length
            invariant
                value@.len() <= length,
                forall|i: int| 0 <= i < value@.len() ==> value@[i] == 0u8,
            decreases length - value@.len(),
        {
            value.push(0u8);
        }
        Key { value }
    }

    /// The key's length in bytes, fixed at construction.
    pub fn len(&self) -> (n: usize)
        ensures
            n == self@.len(),
    {
        self.value.len()
    }

    /// Read-only view of the current contents. During a run this shows the
    /// partially assembled state; completeness cannot be concluded from it.
    pub fn to_string(&self) -> (bytes: &[u8])
        ensures
            bytes@ == self@,
    {
        self.value.as_slice()
    }

    /// Copies the key's bytes into the front of a caller-owned buffer, leaving
    /// the key intact. A buffer shorter than the key is rejected untouched:
    /// the key is never silently truncated.
    pub fn write_to_buffer(&self, buffer: &mut Vec<u8>) -> (ok: bool)
        ensures
            ok == (old(buffer)@.len() >= self@.len()),
            ok ==> final(buffer)@ == self@ + old(buffer)@.skip(self@.len() as int),
            !ok ==> final(buffer)@ == old(buffer)@,
    {
        if buffer.len() < self.value.len() {
            return false;
        }
        let mut i: usize = 0;
        while i < self.value.len()
            invariant
                i <= self@.len() <= buffer@.len(),
                buffer@.len() == old(buffer)@.len(),
                forall|j: int| 0 <= j < i ==> buffer@[j] == self@[j],
                forall|j: int| i <= j < buffer@.len() ==> buffer@[j] == old(buffer)@[j],
            decreases self@.len() - i,
        {
            buffer[i] = self.value[i];
            i += 1;
        }
        assert(buffer@ =~= self@ + old(buffer)@.skip(self@.len() as int));
        true
    }
}

} // verus!
