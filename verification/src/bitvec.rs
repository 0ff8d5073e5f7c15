use vstd::prelude::*;
use crate::hashing::{enc_bytes, Transcript};
use crate::rng::random_bytes;

verus! {

/// Byte-for-byte XOR of two equal-length byte strings.
pub open spec fn xor_bytes(a: Seq<u8>, b: Seq<u8>) -> Seq<u8> {
    Seq::new(a.len(), |i: int| a[i] ^ b[i])
}

/// Left fold of `xor_bytes` over a sequence of byte strings; the XOR of the
/// whole family, evaluated in index order.
pub open spec fn xor_seq(s: Seq<Seq<u8>>) -> Seq<u8>
    decreases s.len(),
{
    if s.len() == 0 {
        Seq::empty()
    } else if s.len() == 1 {
        s[0]
    } else {
        xor_bytes(xor_seq(s.drop_last()), s.last())
    }
}

/// A fixed-length random bit string, stored as bytes.  Each party contributes
/// two of these to its committed data; the XOR of every party's `rho_bits`
/// becomes the session nonce.
pub struct BitVec {
    pub bytes: Vec<u8>,
}

impl BitVec {
    /// Samples a uniformly random bit string of at least `min_bits` bits,
    /// rounded up to whole bytes.
    pub fn random(min_bits: usize) -> (r: BitVec)
        requires
            1 <= min_bits,
        ensures
            r.bytes@.len() == (min_bits - 1) / 8 + 1,
    {
        let len = (min_bits - 1) / 8 + 1;
        BitVec { bytes: random_bytes(len) }
    }

    /// An exact copy of this bit string.
    pub fn duplicate(&self) -> (r: BitVec)
        ensures
            r.bytes@ == self.bytes@,
    {
        let mut out: Vec<u8> = Vec::new();
        let mut i: usize = 0;
        while i < self.bytes.len()
            invariant
                i <= self.bytes@.len(),
                out@ == self.bytes@.take(i as int),
            decreases self.bytes@.len() - i,
        {
            out.push(self.bytes[i]);
            proof {
                assert(out@ =~= self.bytes@.take(i + 1 as int));
            }
            i = i + 1;
        }
        proof {
            assert(out@ =~= self.bytes@);
        }
        BitVec { bytes: out }
    }

    /// Absorbs this bit string into a transcript.
    pub fn chain(&self, digest: Transcript) -> (r: Transcript)
        ensures
            r.buf@ == digest.buf@ + enc_bytes(self.bytes@),
    {
        let mut d = digest;
        d.chain_bytes(&self.bytes);
        d
    }

    /// XORs `rhs` into this bit string, byte for byte.  Both strings must
    /// have the same length.
    pub fn bitxor_assign(&mut self, rhs: &BitVec)
        requires
            old(self).bytes@.len() == rhs.bytes@.len(),
        ensures
            final(self).bytes@ == xor_bytes(old(self).bytes@, rhs.bytes@),
    {
        let n = self.bytes.len();
        let mut out: Vec<u8> = Vec::new();
        let mut i: usize = 0;
        while i < n
            invariant
                n == self.bytes@.len(),
                n == rhs.bytes@.len(),
                i <= n,
                out@ == xor_bytes(self.bytes@, rhs.bytes@).take(i as int),
            decreases n - i,
        {
            out.push(self.bytes[i] ^ rhs.bytes[i]);
            proof {
                assert(out@ =~= xor_bytes(self.bytes@, rhs.bytes@).take(i + 1 as int));
            }
            i = i + 1;
        }
        proof {
            assert(xor_bytes(self.bytes@, rhs.bytes@).take(n as int) =~= xor_bytes(
                self.bytes@,
                rhs.bytes@,
            ));
        }
        self.bytes = out;
    }
}

} // verus!
