use vstd::prelude::*;

verus! {

/// A 32-byte account key. Both caller identities and derived record
/// addresses are values of this type; its view is the byte sequence.
#[derive(Debug, PartialEq, Eq)]
pub struct Identity {
    pub(crate) bytes: Vec<u8>,
}

impl View for Identity {
    type V = Seq<u8>;

    closed spec fn view(&self) -> Seq<u8> {
        self.bytes@
    }
}

impl Identity {
    /// Every identity this crate hands out or accepts holds exactly 32 bytes.
    pub open spec fn wf(&self) -> bool {
        self@.len() == 32
    }

    /// Builds an identity from its raw bytes; exactly 32 bytes are accepted.
    pub fn from_bytes(bytes: Vec<u8>) -> (r: Option<Identity>)
        ensures
            r is Some <==> bytes@.len() == 32,
            r matches Some(id) ==> id@ == bytes@ && id.wf(),
    {
        if bytes.len() == 32 {
            Some(Identity { bytes })
        } else {
            None
        }
    }

    /// Byte-for-byte equality of two identities.
    pub fn same(&self, other: &Identity) -> (b: bool)
        ensures
            b == (self@ == other@),
    {
        if self.bytes.len() != other.bytes.len() {
            return false;
        }
        let n = self.bytes.len();
        let mut i: usize = 0;
        while i < n
            invariant
                n == self.bytes@.len(),
                n == other.bytes@.len(),
                i <= n,
                forall|k: int| 0 <= k < i ==> self.bytes@[k] == other.bytes@[k],
            decreases n - i,
        {
            if self.bytes[i] != other.bytes[i] {
                proof {
                    assert(self@[i as int] != other@[i as int]);
                }
                return false;
            }
            i += 1;
        }
        proof {
            assert(self@ =~= other@);
        }
        true
    }

    /// An identical copy of the identity.
    pub fn clone_id(&self) -> (r: Identity)
        ensures
            r@ == self@,
    {
        let mut bytes: Vec<u8> = Vec::new();
        let n = self.bytes.len();
        let mut i: usize = 0;
        while i < n
            invariant
                n == self.bytes@.len(),
                i <= n,
                bytes@ == self.bytes@.subrange(0, i as int),
            decreases n - i,
        {
            bytes.push(self.bytes[i]);
            proof {
                assert(bytes@ =~= self.bytes@.subrange(0, i + 1));
            }
            i += 1;
        }
        proof {
            assert(bytes@ =~= self.bytes@);
        }
        Identity { bytes }
    }

    /// The raw bytes of the identity.
    pub fn as_bytes(&self) -> (r: &Vec<u8>)
        ensures
            r@ == self@,
    {
        &self.bytes
    }
}

} // verus!
