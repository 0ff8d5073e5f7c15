use vstd::prelude::*;
use sha2::Digest;
use sha2::Sha256;

verus! {

/// The digest that the hash function assigns to a byte string.  The function
/// is a fixed public one; its value on given bytes is determined by those
/// bytes alone, which is all the protocol relies on.
pub uninterp spec fn digest_of(data: Seq<u8>) -> Seq<u8>;

/// Relies on sha2::Sha256 (Digest::digest): a 32-byte digest that depends on
/// the input bytes alone.
#[verifier::external_body]
pub fn sha256(data: &Vec<u8>) -> (r: Vec<u8>)
    ensures
        r@ == digest_of(data@),
        r@.len() == 32,
{
    Sha256::digest(data.as_slice()).to_vec()
}

/// A 64-bit length written as eight little-endian bytes.
pub open spec fn u64_le(x: u64) -> Seq<u8> {
    seq![
        x as u8,
        (x >> 8) as u8,
        (x >> 16) as u8,
        (x >> 24) as u8,
        (x >> 32) as u8,
        (x >> 40) as u8,
        (x >> 48) as u8,
        (x >> 56) as u8,
    ]
}

/// The unambiguous encoding of one byte-string field: its length, then its
/// bytes.
pub open spec fn enc_bytes(s: Seq<u8>) -> Seq<u8> {
    u64_le(s.len() as u64) + s
}

/// The concatenated encodings of a family of byte strings.
pub open spec fn enc_items(items: Seq<Seq<u8>>) -> Seq<u8>
    decreases items.len(),
{
    if items.len() == 0 {
        Seq::empty()
    } else {
        enc_bytes(items[0]) + enc_items(items.skip(1))
    }
}

/// The unambiguous encoding of a list of byte strings: the count, then each
/// entry's encoding.
pub open spec fn enc_list(items: Seq<Seq<u8>>) -> Seq<u8> {
    u64_le(items.len() as u64) + enc_items(items)
}

/// Appending one entry appends its encoding.
pub proof fn lemma_enc_items_push(items: Seq<Seq<u8>>, x: Seq<u8>)
    ensures
        enc_items(items.push(x)) == enc_items(items) + enc_bytes(x),
    decreases items.len(),
{
    if items.len() == 0 {
        assert(items.push(x).skip(1) =~= Seq::<Seq<u8>>::empty());
        assert(items.push(x)[0] == x);
        assert(enc_items(Seq::<Seq<u8>>::empty()) == Seq::<u8>::empty());
        assert(enc_items(items.push(x)) == enc_bytes(items.push(x)[0]) + enc_items(
            items.push(x).skip(1),
        ));
        assert(enc_items(items.push(x)) =~= enc_bytes(x));
        assert(enc_items(items) + enc_bytes(x) =~= enc_bytes(x));
    } else {
        assert(items.push(x).skip(1) =~= items.skip(1).push(x));
        lemma_enc_items_push(items.skip(1), x);
        assert(items.push(x)[0] == items[0]);
        assert(enc_items(items.push(x)) == enc_bytes(items[0]) + (enc_items(items.skip(1))
            + enc_bytes(x)));
        assert(enc_bytes(items[0]) + (enc_items(items.skip(1)) + enc_bytes(x)) =~= (enc_bytes(
            items[0],
        ) + enc_items(items.skip(1))) + enc_bytes(x));
    }
}

/// A domain-separated transcript under construction: the tag byte followed by
/// the encodings of every absorbed value, hashed when complete.
pub struct Transcript {
    pub buf: Vec<u8>,
}

impl Transcript {
    /// Starts a transcript whose first byte is the domain tag.
    pub fn new_with_tag(tag: u8) -> (r: Transcript)
        ensures
            r.buf@ == seq![tag],
    {
        let mut buf: Vec<u8> = Vec::new();
        buf.push(tag);
        proof {
            assert(buf@ =~= seq![tag]);
        }
        Transcript { buf }
    }

    /// Absorbs a 64-bit value.
    pub fn chain_u64(&mut self, x: u64)
        ensures
            final(self).buf@ == old(self).buf@ + u64_le(x),
    {
        let ghost before = self.buf@;
        self.buf.push(x as u8);
        self.buf.push((x >> 8) as u8);
        self.buf.push((x >> 16) as u8);
        self.buf.push((x >> 24) as u8);
        self.buf.push((x >> 32) as u8);
        self.buf.push((x >> 40) as u8);
        self.buf.push((x >> 48) as u8);
        self.buf.push((x >> 56) as u8);
        proof {
            assert(self.buf@ =~= before + u64_le(x));
        }
    }

    /// Absorbs one byte-string field, length first.
    pub fn chain_bytes(&mut self, data: &Vec<u8>)
        ensures
            final(self).buf@ == old(self).buf@ + enc_bytes(data@),
    {
        let ghost before = self.buf@;
        self.chain_u64(data.len() as u64);
        let mut i: usize = 0;
        while i < data.len()
            invariant
                i <= data@.len(),
                self.buf@ == before + u64_le(data@.len() as u64) + data@.take(i as int),
            decreases data@.len() - i,
        {
            let ghost mid = self.buf@;
            self.buf.push(data[i]);
            proof {
                assert(self.buf@ =~= before + u64_le(data@.len() as u64) + data@.take(
                    i as int + 1,
                ));
            }
            i = i + 1;
        }
        proof {
            assert(data@.take(data@.len() as int) =~= data@);
            assert(before + u64_le(data@.len() as u64) + data@ =~= before + enc_bytes(data@));
        }
    }

    /// The raw transcript bytes, for use as a Fiat-Shamir auxiliary.
    pub fn into_bytes(self) -> (r: Vec<u8>)
        ensures
            r@ == self.buf@,
    {
        self.buf
    }

    /// Hashes the finished transcript.
    pub fn finalize(&self) -> (r: Vec<u8>)
        ensures
            r@ == digest_of(self.buf@),
            r@.len() == 32,
    {
        sha256(&self.buf)
    }
}

/// An exact copy of a byte string.
pub fn copy_bytes(v: &Vec<u8>) -> (r: Vec<u8>)
    ensures
        r@ == v@,
{
    let mut out: Vec<u8> = Vec::new();
    let mut i: usize = 0;
    while i < v.len()
        invariant
            i <= v@.len(),
            out@ == v@.take(i as int),
        decreases v@.len() - i,
    {
        out.push(v[i]);
        proof {
            assert(out@ =~= v@.take(i as int + 1));
        }
        i = i + 1;
    }
    proof {
        assert(out@ =~= v@);
    }
    out
}

/// Byte-string equality.
pub fn bytes_equal(a: &Vec<u8>, b: &Vec<u8>) -> (r: bool)
    ensures
        r == (a@ == b@),
{
    if a.len() != b.len() {
        proof {
            assert(a@.len() != b@.len());
        }
        return false;
    }
    let n = a.len();
    let mut i: usize = 0;
    let mut eq = true;
    while i < n
        invariant
            i <= n,
            a@.len() == n,
            b@.len() == n,
            eq == (forall|k: int| 0 <= k < i ==> a@[k] == b@[k]),
        decreases n - i,
    {
        if a[i] != b[i] {
            eq = false;
        }
        i = i + 1;
    }
    proof {
        if eq {
            assert(a@ =~= b@);
        }
    }
    eq
}

} // verus!
