use vstd::prelude::*;
use vstd::arithmetic::div_mod::{lemma_add_mod_noop, lemma_small_mod};
use crate::group::{group_order, nat_of_le, Point, Scalar};
use crate::hashing::{bytes_equal, digest_of, enc_bytes, Transcript};
use crate::paillier::{PublicKeyPaillier, SecretKeyPaillier};

verus! {

/// Domain tag of the PRM transcript.
pub const TAG_PRM: u8 = 2;

/// Domain tag of the MOD transcript.
pub const TAG_MOD: u8 = 3;

/// Domain tag of the FAC transcript.
pub const TAG_FAC: u8 = 4;

/// Domain tag of the SCH challenge transcript.
pub const TAG_SCH: u8 = 5;

/// The transcript a PRM proof binds: the modulus, the ring-Pedersen base and
/// power, and the Fiat-Shamir auxiliary.
pub open spec fn prm_tr(modulus: Seq<u8>, base: Seq<u8>, public: Seq<u8>, aux: Seq<u8>) -> Seq<
    u8,
> {
    seq![TAG_PRM] + enc_bytes(modulus) + enc_bytes(base) + enc_bytes(public) + enc_bytes(aux)
}

/// The transcript a MOD proof binds: the modulus and the auxiliary.
pub open spec fn mod_tr(modulus: Seq<u8>, aux: Seq<u8>) -> Seq<u8> {
    seq![TAG_MOD] + enc_bytes(modulus) + enc_bytes(aux)
}

/// The transcript a FAC proof binds: the modulus and the auxiliary.
pub open spec fn fac_tr(modulus: Seq<u8>, aux: Seq<u8>) -> Seq<u8> {
    seq![TAG_FAC] + enc_bytes(modulus) + enc_bytes(aux)
}

/// The SCH challenge transcript: the commitment point, the public point and
/// the auxiliary.
pub open spec fn sch_tr(commitment: Seq<u8>, public: Seq<u8>, aux: Seq<u8>) -> Seq<u8> {
    seq![TAG_SCH] + enc_bytes(commitment) + enc_bytes(public) + enc_bytes(aux)
}

/// The SCH challenge scalar derived from that transcript.
pub open spec fn sch_challenge(commitment: Seq<u8>, public: Seq<u8>, aux: Seq<u8>) -> nat {
    nat_of_le(digest_of(sch_tr(commitment, public, aux))) % group_order()
}

/// The SCH verification equation: the response times the generator equals
/// the commitment plus the challenge times the public point.
pub open spec fn sch_verifies(z: nat, commitment: Seq<u8>, public: Seq<u8>, aux: Seq<u8>) -> bool {
    z == (nat_of_le(commitment) + sch_challenge(commitment, public, aux) * nat_of_le(public))
        % group_order()
}

/// A proof that the ring-Pedersen pair is well formed: the power is a power
/// of the base modulo the squared modulus.  The proof system itself is
/// outside this library's scope; the proof value is modeled as the digest of
/// the statement it binds, which is what the protocol's acceptance rules
/// rely on.
pub struct PrmProof {
    pub digest: Vec<u8>,
}

impl PrmProof {
    /// Proves well-formedness of `(base, public)` under the prover's key.
    pub fn random(
        sk: &SecretKeyPaillier,
        base: &Vec<u8>,
        public: &Vec<u8>,
        aux: &Vec<u8>,
    ) -> (r: PrmProof)
        ensures
            r.digest@ == digest_of(prm_tr(sk.modulus@, base@, public@, aux@)),
    {
        let mut t = Transcript::new_with_tag(TAG_PRM);
        t.chain_bytes(&sk.modulus);
        t.chain_bytes(base);
        t.chain_bytes(public);
        t.chain_bytes(aux);
        PrmProof { digest: t.finalize() }
    }

    /// Checks the proof against the declared statement.
    pub fn verify(
        &self,
        pk: &PublicKeyPaillier,
        base: &Vec<u8>,
        public: &Vec<u8>,
        aux: &Vec<u8>,
    ) -> (r: bool)
        ensures
            r == (self.digest@ == digest_of(prm_tr(pk.modulus@, base@, public@, aux@))),
    {
        let mut t = Transcript::new_with_tag(TAG_PRM);
        t.chain_bytes(&pk.modulus);
        t.chain_bytes(base);
        t.chain_bytes(public);
        t.chain_bytes(aux);
        let expected = t.finalize();
        bytes_equal(&self.digest, &expected)
    }
}

/// A proof that the modulus is of the proper two-prime form.  Modeled as the
/// digest of the statement it binds.
pub struct ModProof {
    pub digest: Vec<u8>,
}

impl ModProof {
    /// Proves the prover's own modulus.
    pub fn random(sk: &SecretKeyPaillier, aux: &Vec<u8>) -> (r: ModProof)
        ensures
            r.digest@ == digest_of(mod_tr(sk.modulus@, aux@)),
    {
        let mut t = Transcript::new_with_tag(TAG_MOD);
        t.chain_bytes(&sk.modulus);
        t.chain_bytes(aux);
        ModProof { digest: t.finalize() }
    }

    /// An exact copy of this proof.
    pub fn duplicate(&self) -> (r: ModProof)
        ensures
            r.digest@ == self.digest@,
    {
        ModProof { digest: crate::hashing::copy_bytes(&self.digest) }
    }

    /// Checks the proof against the declared modulus and auxiliary.
    pub fn verify(&self, pk: &PublicKeyPaillier, aux: &Vec<u8>) -> (r: bool)
        ensures
            r == (self.digest@ == digest_of(mod_tr(pk.modulus@, aux@))),
    {
        let mut t = Transcript::new_with_tag(TAG_MOD);
        t.chain_bytes(&pk.modulus);
        t.chain_bytes(aux);
        let expected = t.finalize();
        bytes_equal(&self.digest, &expected)
    }
}

/// A proof that the modulus has no small factors.  Its checker receives no
/// statement and no context, so it can only test the proof's internal
/// consistency: the carried modulus and auxiliary against the carried
/// digest.
pub struct FacProof {
    pub modulus: Vec<u8>,
    pub aux: Vec<u8>,
    pub digest: Vec<u8>,
}

impl FacProof {
    /// Proves the prover's own modulus.
    pub fn random(sk: &SecretKeyPaillier, aux: &Vec<u8>) -> (r: FacProof)
        ensures
            r.modulus@ == sk.modulus@,
            r.aux@ == aux@,
            r.digest@ == digest_of(fac_tr(sk.modulus@, aux@)),
    {
        let mut t = Transcript::new_with_tag(TAG_FAC);
        t.chain_bytes(&sk.modulus);
        t.chain_bytes(aux);
        let digest = t.finalize();
        let mut modulus: Vec<u8> = Vec::new();
        let mut i: usize = 0;
        while i < sk.modulus.len()
            invariant
                i <= sk.modulus@.len(),
                modulus@ == sk.modulus@.take(i as int),
            decreases sk.modulus@.len() - i,
        {
            modulus.push(sk.modulus[i]);
            proof {
                assert(modulus@ =~= sk.modulus@.take(i as int + 1));
            }
            i = i + 1;
        }
        let mut aux_copy: Vec<u8> = Vec::new();
        let mut j: usize = 0;
        while j < aux.len()
            invariant
                j <= aux@.len(),
                aux_copy@ == aux@.take(j as int),
            decreases aux@.len() - j,
        {
            aux_copy.push(aux[j]);
            proof {
                assert(aux_copy@ =~= aux@.take(j as int + 1));
            }
            j = j + 1;
        }
        proof {
            assert(modulus@ =~= sk.modulus@);
            assert(aux_copy@ =~= aux@);
        }
        FacProof { modulus, aux: aux_copy, digest }
    }

    /// Checks the proof's internal consistency.
    pub fn verify(&self) -> (r: bool)
        ensures
            r == (self.digest@ == digest_of(fac_tr(self.modulus@, self.aux@))),
    {
        let mut t = Transcript::new_with_tag(TAG_FAC);
        t.chain_bytes(&self.modulus);
        t.chain_bytes(&self.aux);
        let expected = t.finalize();
        bytes_equal(&self.digest, &expected)
    }
}

/// The fresh nonce of a SCH proof, drawn before the challenge is known.
pub struct SchSecret {
    pub tau: Scalar,
}

impl SchSecret {
    /// Draws a fresh nonce.
    pub fn random() -> (r: SchSecret)
        ensures
            r.tau.wf(),
    {
        SchSecret { tau: Scalar::random() }
    }
}

/// The early commitment of a SCH proof: the nonce times the generator.
pub struct SchCommitment {
    pub point: Point,
}

impl SchCommitment {
    /// Commits to the nonce.
    pub fn new(secret: &SchSecret) -> (r: SchCommitment)
        requires
            secret.tau.wf(),
        ensures
            r.point.wf(),
            r.point.pval() == secret.tau.val(),
    {
        SchCommitment { point: Point::gen_mul(&secret.tau) }
    }
}

/// The SCH challenge as a scalar.
pub fn challenge_scalar(commitment: &Point, public: &Point, aux: &Vec<u8>) -> (r: Scalar)
    ensures
        r.wf(),
        r.val() == sch_challenge(commitment.scalar.bytes@, public.scalar.bytes@, aux@),
{
    let mut t = Transcript::new_with_tag(TAG_SCH);
    t.chain_bytes(&commitment.scalar.bytes);
    t.chain_bytes(&public.scalar.bytes);
    t.chain_bytes(aux);
    let digest = t.finalize();
    Scalar::reduce(&digest)
}

/// A SCH proof of knowledge of the discrete logarithm of a public point: the
/// response to the Fiat-Shamir challenge fixed by the commitment, the public
/// point and the auxiliary.
pub struct SchProof {
    pub z: Scalar,
}

impl SchProof {
    /// Builds the response from the nonce and the witness.  When the
    /// commitment and the public point are the images of the nonce and the
    /// witness, the proof verifies.
    pub fn new(
        secret: &SchSecret,
        x: &Scalar,
        commitment: &SchCommitment,
        public: &Point,
        aux: &Vec<u8>,
    ) -> (r: SchProof)
        requires
            secret.tau.wf(),
            x.wf(),
            commitment.point.wf(),
            public.wf(),
        ensures
            r.z.wf(),
            r.z.val() == (secret.tau.val() + sch_challenge(
                commitment.point.scalar.bytes@,
                public.scalar.bytes@,
                aux@,
            ) * x.val()) % group_order(),
            (commitment.point.pval() == secret.tau.val() && public.pval() == x.val())
                ==> sch_verifies(
                r.z.val(),
                commitment.point.scalar.bytes@,
                public.scalar.bytes@,
                aux@,
            ),
    {
        let e = challenge_scalar(&commitment.point, public, aux);
        let ex = e.mul(x);
        let z = secret.tau.add(&ex);
        proof {
            let q = group_order();
            let tau = secret.tau.val();
            let prod = e.val() * x.val();
            lemma_small_mod(tau, q);
            lemma_add_mod_noop(tau as int, prod as int, q as int);
            assert(z.val() == (tau + prod) % q);
        }
        SchProof { z }
    }

    /// An exact copy of this proof.
    pub fn duplicate(&self) -> (r: SchProof)
        ensures
            r.z.bytes@ == self.z.bytes@,
            r.z.val() == self.z.val(),
            r.z.wf() == self.z.wf(),
    {
        SchProof { z: self.z.duplicate() }
    }

    /// Checks the verification equation against the commitment, the public
    /// point and the auxiliary.
    pub fn verify(&self, commitment: &SchCommitment, public: &Point, aux: &Vec<u8>) -> (r: bool)
        requires
            self.z.wf(),
            commitment.point.wf(),
            public.wf(),
        ensures
            r == sch_verifies(
                self.z.val(),
                commitment.point.scalar.bytes@,
                public.scalar.bytes@,
                aux@,
            ),
    {
        let e = challenge_scalar(&commitment.point, public, aux);
        let lhs = Point::gen_mul(&self.z);
        let ex = public.mul(&e);
        let rhs = commitment.point.add(&ex);
        let r = lhs.equals(&rhs);
        proof {
            let q = group_order();
            let a = commitment.point.pval();
            let prod = e.val() * public.pval();
            lemma_small_mod(a, q);
            lemma_add_mod_noop(a as int, prod as int, q as int);
            assert(rhs.pval() == (a + prod) % q);
        }
        r
    }
}

} // verus!
