use vstd::prelude::*;
use vstd::arithmetic::power::pow;
use vstd::arithmetic::div_mod::lemma_mod_multiples_vanish;
use vstd::arithmetic::div_mod::lemma_mul_mod_noop_general;
use crypto_bigint::U2048;
use crypto_bigint::U4096;
use crypto_bigint::U256;
use crypto_bigint::NonZero;
use crypto_bigint::Encoding;
use crypto_bigint::modular::runtime_mod::DynResidue;
use crypto_bigint::modular::runtime_mod::DynResidueParams;
use crate::group::Scalar;
use crate::group::nat_of_le;
use crate::params::MODULUS_BYTES;
use crate::params::DOUBLE_BYTES;
use crate::rng::random_bytes;

verus! {

/// Bit length of a single byte.
pub open spec fn bitlen8(b: u8) -> nat {
    if b >= 128 {
        8
    } else if b >= 64 {
        7
    } else if b >= 32 {
        6
    } else if b >= 16 {
        5
    } else if b >= 8 {
        4
    } else if b >= 4 {
        3
    } else if b >= 2 {
        2
    } else if b >= 1 {
        1
    } else {
        0
    }
}

/// Bit length of a little-endian byte string: leading zero bytes do not
/// count.
pub open spec fn bits_of(s: Seq<u8>) -> nat
    decreases s.len(),
{
    if s.len() == 0 {
        0
    } else if s.last() == 0 {
        bits_of(s.drop_last())
    } else {
        (8 * (s.len() - 1) + bitlen8(s.last())) as nat
    }
}

/// Bit length of one byte.
fn bitlen8_exec(b: u8) -> (r: usize)
    ensures
        r == bitlen8(b),
{
    if b >= 128 {
        8
    } else if b >= 64 {
        7
    } else if b >= 32 {
        6
    } else if b >= 16 {
        5
    } else if b >= 8 {
        4
    } else if b >= 4 {
        3
    } else if b >= 2 {
        2
    } else if b >= 1 {
        1
    } else {
        0
    }
}

/// Bit length of a little-endian byte string.
pub fn modulus_bits(v: &Vec<u8>) -> (r: usize)
    requires
        v@.len() <= 4096,
    ensures
        r == bits_of(v@),
{
    let mut i: usize = v.len();
    proof {
        assert(v@.take(v@.len() as int) =~= v@);
    }
    while i > 0 && v[i - 1] == 0
        invariant
            i <= v@.len(),
            v@.len() <= 4096,
            bits_of(v@.take(i as int)) == bits_of(v@),
        decreases i,
    {
        proof {
            assert(v@.take(i as int).drop_last() =~= v@.take(i as int - 1));
        }
        i = i - 1;
    }
    if i == 0 {
        0
    } else {
        proof {
            assert(v@.take(i as int).last() == v@[i as int - 1]);
        }
        8 * (i - 1) + bitlen8_exec(v[i - 1])
    }
}

/// Relies on crypto_bigint::Uint::mul_wide (squaring a 2048-bit value into
/// its 4096-bit low and high halves): returns the exact square, as the
/// concatenation of the two little-endian halves.
#[verifier::external_body]
fn wide_square(a: &Vec<u8>) -> (r: Vec<u8>)
    requires
        a@.len() == 256,
    ensures
        r@.len() == 512,
        nat_of_le(r@) == nat_of_le(a@) * nat_of_le(a@),
{
    let x = U2048::from_le_slice(a.as_slice());
    let (lo, hi) = x.mul_wide(&x);
    let mut out = lo.to_le_bytes().to_vec();
    out.extend_from_slice(&hi.to_le_bytes());
    out
}

/// Relies on crypto_bigint::U4096::rem: the remainder of `x` modulo the
/// non-zero `m`.
#[verifier::external_body]
fn big_rem(x: &Vec<u8>, m: &Vec<u8>) -> (r: Vec<u8>)
    requires
        x@.len() == 512,
        m@.len() == 512,
        nat_of_le(m@) > 0,
    ensures
        r@.len() == 512,
        nat_of_le(r@) == nat_of_le(x@) % nat_of_le(m@),
{
    let m = NonZero::new(U4096::from_le_slice(m.as_slice())).unwrap();
    U4096::from_le_slice(x.as_slice()).rem(&m).to_le_bytes().to_vec()
}

/// Relies on crypto_bigint's Montgomery form with a runtime modulus
/// (DynResidueParams::new, DynResidue::new, DynResidue::mul, retrieve):
/// returns `(a * b) mod m` for an odd modulus `m` and reduced inputs.
#[verifier::external_body]
fn big_mul_mod(a: &Vec<u8>, b: &Vec<u8>, m: &Vec<u8>) -> (r: Vec<u8>)
    requires
        a@.len() == 512,
        b@.len() == 512,
        m@.len() == 512,
        nat_of_le(a@) < nat_of_le(m@),
        nat_of_le(b@) < nat_of_le(m@),
        nat_of_le(m@) % 2 == 1,
    ensures
        r@.len() == 512,
        nat_of_le(r@) == (nat_of_le(a@) * nat_of_le(b@)) % nat_of_le(m@),
{
    let params = DynResidueParams::new(&U4096::from_le_slice(m.as_slice()));
    let x = DynResidue::new(&U4096::from_le_slice(a.as_slice()), params);
    let y = DynResidue::new(&U4096::from_le_slice(b.as_slice()), params);
    x.mul(&y).retrieve().to_le_bytes().to_vec()
}

/// Relies on crypto_bigint's DynResidue::pow (Montgomery exponentiation with
/// a runtime modulus): returns `b ^ e mod m` for an odd modulus `m`, a
/// reduced base and a 256-bit exponent.
#[verifier::external_body]
fn big_pow_mod(b: &Vec<u8>, e: &Vec<u8>, m: &Vec<u8>) -> (r: Vec<u8>)
    requires
        b@.len() == 512,
        e@.len() == 32,
        m@.len() == 512,
        nat_of_le(b@) < nat_of_le(m@),
        nat_of_le(m@) % 2 == 1,
    ensures
        r@.len() == 512,
        nat_of_le(r@) == pow(nat_of_le(b@) as int, nat_of_le(e@)) % (nat_of_le(m@) as int),
{
    let params = DynResidueParams::new(&U4096::from_le_slice(m.as_slice()));
    let base = DynResidue::new(&U4096::from_le_slice(b.as_slice()), params);
    let exponent = U256::from_le_slice(e.as_slice());
    base.pow(&exponent).retrieve().to_le_bytes().to_vec()
}

/// A well-formed Paillier modulus of this scheme: full length, odd, with the
/// top bit set.
pub open spec fn modulus_wf(m: Seq<u8>) -> bool {
    &&& m.len() == MODULUS_BYTES
    &&& m[0] as int % 2 == 1
    &&& m.last() >= 128
}

/// A well-formed modulus has exactly `8 * MODULUS_BYTES` bits, is odd and is
/// positive.
pub proof fn lemma_modulus_wf_facts(m: Seq<u8>)
    requires
        modulus_wf(m),
    ensures
        bits_of(m) == 8 * MODULUS_BYTES,
        nat_of_le(m) % 2 == 1,
        nat_of_le(m) > 0,
{
    assert(m.last() != 0);
    assert(bitlen8(m.last()) == 8);
    assert(bits_of(m) == 8 * (MODULUS_BYTES - 1) + 8);
    let rest = nat_of_le(m.skip(1));
    assert(nat_of_le(m) == (m[0] + 256 * rest) as nat);
    lemma_mod_multiples_vanish(128 * rest as int, m[0] as int, 2);
    assert(nat_of_le(m) >= m[0]);
}

/// The secret half of a Paillier key pair.  The model keeps the modulus; the
/// factorization and the decryption trapdoor belong to the Paillier
/// primitive, which is outside this library's scope.
pub struct SecretKeyPaillier {
    pub modulus: Vec<u8>,
}

/// The public half of a Paillier key pair: the modulus.
pub struct PublicKeyPaillier {
    pub modulus: Vec<u8>,
}

impl SecretKeyPaillier {
    /// Generates a fresh key pair: a random full-length modulus, forced odd
    /// and with its top bit set.
    pub fn random() -> (r: SecretKeyPaillier)
        ensures
            modulus_wf(r.modulus@),
    {
        let raw = random_bytes(MODULUS_BYTES);
        let mut m: Vec<u8> = Vec::new();
        m.push(raw[0] | 1u8);
        let mut i: usize = 1;
        while i < MODULUS_BYTES - 1
            invariant
                1 <= i <= MODULUS_BYTES - 1,
                raw@.len() == MODULUS_BYTES,
                m@.len() == i,
                m@[0] == raw@[0] | 1u8,
            decreases MODULUS_BYTES - 1 - i,
        {
            m.push(raw[i]);
            i = i + 1;
        }
        m.push(raw[MODULUS_BYTES - 1] | 128u8);
        proof {
            let b0 = raw@[0];
            assert((b0 | 1u8) as int % 2 == 1) by (bit_vector);
            let bl = raw@[MODULUS_BYTES - 1];
            assert((bl | 128u8) >= 128) by (bit_vector);
            assert(m@.last() == (bl | 128u8));
        }
        SecretKeyPaillier { modulus: m }
    }

    /// The public key of this pair.
    pub fn public_key(&self) -> (r: PublicKeyPaillier)
        ensures
            r.modulus@ == self.modulus@,
    {
        let mut out: Vec<u8> = Vec::new();
        let mut i: usize = 0;
        while i < self.modulus.len()
            invariant
                i <= self.modulus@.len(),
                out@ == self.modulus@.take(i as int),
            decreases self.modulus@.len() - i,
        {
            out.push(self.modulus[i]);
            proof {
                assert(out@ =~= self.modulus@.take(i as int + 1));
            }
            i = i + 1;
        }
        proof {
            assert(out@ =~= self.modulus@);
        }
        PublicKeyPaillier { modulus: out }
    }
}

impl PublicKeyPaillier {
    /// The square of the modulus, the modulus of the multiplicative group the
    /// ring-Pedersen values live in.
    pub fn n_squared(&self) -> (r: Vec<u8>)
        requires
            modulus_wf(self.modulus@),
        ensures
            r@.len() == DOUBLE_BYTES,
            nat_of_le(r@) == nat_of_le(self.modulus@) * nat_of_le(self.modulus@),
            nat_of_le(r@) % 2 == 1,
            nat_of_le(r@) > 0,
    {
        let r = wide_square(&self.modulus);
        proof {
            let n = nat_of_le(self.modulus@) as int;
            lemma_modulus_wf_facts(self.modulus@);
            lemma_mul_mod_noop_general(n, n, 2);
            assert((n * n) % 2 == ((n % 2) * (n % 2)) % 2);
            assert(nat_of_le(r@) >= 1) by (nonlinear_arith)
                requires
                    nat_of_le(r@) == nat_of_le(self.modulus@) * nat_of_le(self.modulus@),
                    nat_of_le(self.modulus@) > 0,
            ;
        }
        r
    }

    /// A uniformly random element of the group modulo the squared modulus.
    pub fn random_group_elem(&self) -> (r: Vec<u8>)
        requires
            modulus_wf(self.modulus@),
        ensures
            r@.len() == DOUBLE_BYTES,
            nat_of_le(r@) < nat_of_le(self.modulus@) * nat_of_le(self.modulus@),
    {
        let n2 = self.n_squared();
        let raw = random_bytes(DOUBLE_BYTES);
        let r = big_rem(&raw, &n2);
        proof {
            vstd::arithmetic::div_mod::lemma_mod_bound(
                nat_of_le(raw@) as int,
                nat_of_le(n2@) as int,
            );
        }
        r
    }
}

/// A uniformly random 256-bit exponent for the ring-Pedersen secret power.
pub fn random_field_elem() -> (r: Vec<u8>)
    ensures
        r@.len() == 32,
{
    random_bytes(32)
}

/// Squares a group element modulo the squared modulus.
pub fn group_sqr(x: &Vec<u8>, n2: &Vec<u8>) -> (r: Vec<u8>)
    requires
        x@.len() == DOUBLE_BYTES,
        n2@.len() == DOUBLE_BYTES,
        nat_of_le(x@) < nat_of_le(n2@),
        nat_of_le(n2@) % 2 == 1,
    ensures
        r@.len() == DOUBLE_BYTES,
        nat_of_le(r@) == (nat_of_le(x@) * nat_of_le(x@)) % nat_of_le(n2@),
{
    big_mul_mod(x, x, n2)
}

/// Raises a group element to a 256-bit power modulo the squared modulus.
pub fn group_pow(b: &Vec<u8>, e: &Vec<u8>, n2: &Vec<u8>) -> (r: Vec<u8>)
    requires
        b@.len() == DOUBLE_BYTES,
        e@.len() == 32,
        n2@.len() == DOUBLE_BYTES,
        nat_of_le(b@) < nat_of_le(n2@),
        nat_of_le(n2@) % 2 == 1,
    ensures
        r@.len() == DOUBLE_BYTES,
        nat_of_le(r@) == pow(nat_of_le(b@) as int, nat_of_le(e@)) % (nat_of_le(n2@) as int),
{
    big_pow_mod(b, e, n2)
}

/// A Paillier ciphertext of a curve scalar under a given public key.  The
/// model binds the recipient's modulus and carries the plaintext scalar with
/// fresh wire randomness; the homomorphic algebra of the real scheme belongs
/// to the Paillier primitive, which is outside this library's scope.
pub struct Ciphertext {
    pub key_modulus: Vec<u8>,
    pub payload: Scalar,
    pub nonce: Vec<u8>,
}

impl Ciphertext {
    /// Encrypts `x` under `pk`.
    pub fn new(pk: &PublicKeyPaillier, x: &Scalar) -> (r: Ciphertext)
        requires
            x.wf(),
        ensures
            r.key_modulus@ == pk.modulus@,
            r.payload.bytes@ == x.bytes@,
            r.payload.wf(),
            r.payload.val() == x.val(),
    {
        let mut km: Vec<u8> = Vec::new();
        let mut i: usize = 0;
        while i < pk.modulus.len()
            invariant
                i <= pk.modulus@.len(),
                km@ == pk.modulus@.take(i as int),
            decreases pk.modulus@.len() - i,
        {
            km.push(pk.modulus[i]);
            proof {
                assert(km@ =~= pk.modulus@.take(i as int + 1));
            }
            i = i + 1;
        }
        proof {
            assert(km@ =~= pk.modulus@);
        }
        Ciphertext { key_modulus: km, payload: x.duplicate(), nonce: random_bytes(32) }
    }

    /// Decrypts with the secret key: the carried scalar when the key
    /// matches, nothing otherwise.
    pub fn decrypt(&self, sk: &SecretKeyPaillier) -> (r: Option<Scalar>)
        ensures
            match r {
                Some(x) => self.key_modulus@ == sk.modulus@ && x.bytes@ == self.payload.bytes@,
                None => self.key_modulus@ != sk.modulus@,
            },
    {
        if crate::hashing::bytes_equal(&self.key_modulus, &sk.modulus) {
            Some(self.payload.duplicate())
        } else {
            None
        }
    }
}

} // verus!
