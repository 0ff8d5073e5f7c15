use vstd::prelude::*;
use vstd::arithmetic::div_mod::{lemma_add_mod_noop, lemma_mod_bound, lemma_small_mod};
use crate::bitvec::{xor_seq, BitVec};
use crate::group::{
    group_order, lemma_sum_nats_push, nat_of_le, point_vals, scalar_vals, sum_nats, sum_points,
    zero_sum_scalars, Point, Scalar,
};
use crate::hashing::{
    bytes_equal, copy_bytes, digest_of, enc_bytes, enc_items, enc_list, lemma_enc_items_push,
    u64_le, Transcript,
};
use crate::paillier::{
    bits_of, modulus_bits, modulus_wf, random_field_elem, Ciphertext, PublicKeyPaillier,
    SecretKeyPaillier,
};
use crate::sigma::{
    fac_tr, mod_tr, prm_tr, sch_verifies, FacProof, ModProof, PrmProof, SchCommitment, SchProof,
    SchSecret,
};
use crate::params::{BITVEC_BYTES, DOUBLE_BYTES, MODULUS_BYTES, SECURITY_PARAMETER};
use crate::rng::random_bytes;

verus! {

/// Domain tag of the committed-data transcript.
pub const TAG_AUXILIARY: u8 = 1;

/// Domain tag of the Fiat-Shamir auxiliary of the first round.
pub const TAG_ROUND1_AUX: u8 = 6;

/// Domain tag of the Fiat-Shamir auxiliary of the third round.
pub const TAG_ROUND3_AUX: u8 = 7;

/// The errors a round's verification can surface.  Every one of them is
/// fatal to the session for the observing party.
#[derive(Debug, Clone, Copy, PartialEq, Eq)]
pub enum AuxError {
    HashMismatch,
    WeakModulus,
    NonZeroShareSum,
    PrmFailed,
    ShareDecryptMismatch,
    ModFailed,
    FacFailed,
    SchYFailed,
    SchXFailed,
}

/// The session identifier: a fixed-length byte string shared by every honest
/// party.
pub struct SessionId {
    pub bytes: Vec<u8>,
}

impl SessionId {
    /// A fresh random session identifier.
    pub fn random() -> (r: SessionId)
        ensures
            r.bytes@.len() == 32,
    {
        SessionId { bytes: random_bytes(32) }
    }

    /// An exact copy.
    pub fn duplicate(&self) -> (r: SessionId)
        ensures
            r.bytes@ == self.bytes@,
    {
        let mut out: Vec<u8> = Vec::new();
        let mut i: usize = 0;
        while i < self.bytes.len()
            invariant
                i <= self.bytes@.len(),
                out@ == self.bytes@.take(i as int),
            decreases self.bytes@.len() - i,
        {
            out.push(self.bytes[i]);
            proof {
                assert(out@ =~= self.bytes@.take(i as int + 1));
            }
            i = i + 1;
        }
        proof {
            assert(out@ =~= self.bytes@);
        }
        SessionId { bytes: out }
    }
}

/// The publicly revealed bundle of one party, committed in the first round
/// and revealed in the second.
pub struct FullData {
    pub session_id: SessionId,
    pub party_idx: usize,
    pub xs_public: Vec<Point>,
    pub sch_commitments_x: Vec<SchCommitment>,
    pub y_public: Point,
    pub sch_commitment_y: SchCommitment,
    pub paillier_pk: PublicKeyPaillier,
    pub paillier_public: Vec<u8>,
    pub paillier_base: Vec<u8>,
    pub prm_proof: PrmProof,
    pub rho_bits: BitVec,
    pub u_bits: BitVec,
}

/// The byte-level content of a `FullData` bundle: what the transcript, and
/// hence the commitment, covers.
#[verifier::ext_equal]
pub ghost struct FullDataView {
    pub session_id: Seq<u8>,
    pub party_idx: nat,
    pub xs_public: Seq<Seq<u8>>,
    pub sch_commitments_x: Seq<Seq<u8>>,
    pub y_public: Seq<u8>,
    pub sch_commitment_y: Seq<u8>,
    pub paillier_modulus: Seq<u8>,
    pub paillier_public: Seq<u8>,
    pub paillier_base: Seq<u8>,
    pub prm_digest: Seq<u8>,
    pub rho_bits: Seq<u8>,
    pub u_bits: Seq<u8>,
}

impl View for FullData {
    type V = FullDataView;

    open spec fn view(&self) -> FullDataView {
        FullDataView {
            session_id: self.session_id.bytes@,
            party_idx: self.party_idx as nat,
            xs_public: self.xs_public@.map_values(|p: Point| p.scalar.bytes@),
            sch_commitments_x: self.sch_commitments_x@.map_values(
                |c: SchCommitment| c.point.scalar.bytes@,
            ),
            y_public: self.y_public.scalar.bytes@,
            sch_commitment_y: self.sch_commitment_y.point.scalar.bytes@,
            paillier_modulus: self.paillier_pk.modulus@,
            paillier_public: self.paillier_public@,
            paillier_base: self.paillier_base@,
            prm_digest: self.prm_proof.digest@,
            rho_bits: self.rho_bits.bytes@,
            u_bits: self.u_bits.bytes@,
        }
    }
}

/// The canonical transcript of a bundle, in the committed field order.
pub open spec fn fd_transcript(v: FullDataView) -> Seq<u8> {
    seq![TAG_AUXILIARY] + enc_bytes(v.session_id) + u64_le(v.party_idx as u64) + enc_list(
        v.xs_public,
    ) + enc_list(v.sch_commitments_x) + enc_bytes(v.y_public) + enc_bytes(v.sch_commitment_y)
        + enc_bytes(v.paillier_modulus) + enc_bytes(v.paillier_public) + enc_bytes(v.paillier_base)
        + enc_bytes(v.prm_digest) + enc_bytes(v.rho_bits) + enc_bytes(v.u_bits)
}

/// The Fiat-Shamir auxiliary of the first round: the session and the
/// prover's index.
pub open spec fn aux1_tr(sid: Seq<u8>, party: nat) -> Seq<u8> {
    seq![TAG_ROUND1_AUX] + enc_bytes(sid) + u64_le(party as u64)
}

/// The Fiat-Shamir auxiliary of the third round: the session, the session
/// nonce and the prover's index.
pub open spec fn aux3_tr(sid: Seq<u8>, rho: Seq<u8>, party: nat) -> Seq<u8> {
    seq![TAG_ROUND3_AUX] + enc_bytes(sid) + enc_bytes(rho) + u64_le(party as u64)
}

/// Builds the first-round auxiliary.
pub fn make_aux1(sid: &SessionId, party: usize) -> (r: Vec<u8>)
    ensures
        r@ == aux1_tr(sid.bytes@, party as nat),
{
    let mut t = Transcript::new_with_tag(TAG_ROUND1_AUX);
    t.chain_bytes(&sid.bytes);
    t.chain_u64(party as u64);
    t.into_bytes()
}

/// Builds the third-round auxiliary.
pub fn make_aux3(sid: &SessionId, rho: &BitVec, party: usize) -> (r: Vec<u8>)
    ensures
        r@ == aux3_tr(sid.bytes@, rho.bytes@, party as nat),
{
    let mut t = Transcript::new_with_tag(TAG_ROUND3_AUX);
    t.chain_bytes(&sid.bytes);
    t.chain_bytes(&rho.bytes);
    t.chain_u64(party as u64);
    t.into_bytes()
}

/// Absorbs a list of points, count first.
fn chain_point_list(t: &mut Transcript, pts: &Vec<Point>)
    ensures
        final(t).buf@ == old(t).buf@ + enc_list(pts@.map_values(|p: Point| p.scalar.bytes@)),
{
    let ghost before = t.buf@;
    let ghost views = pts@.map_values(|p: Point| p.scalar.bytes@);
    t.chain_u64(pts.len() as u64);
    let mut i: usize = 0;
    proof {
        assert(views.take(0) =~= Seq::<Seq<u8>>::empty());
        assert(t.buf@ =~= before + u64_le(views.len() as u64) + enc_items(views.take(0)));
    }
    while i < pts.len()
        invariant
            i <= pts@.len(),
            views == pts@.map_values(|p: Point| p.scalar.bytes@),
            t.buf@ == before + u64_le(views.len() as u64) + enc_items(views.take(i as int)),
        decreases pts@.len() - i,
    {
        t.chain_bytes(&pts[i].scalar.bytes);
        proof {
            lemma_enc_items_push(views.take(i as int), views[i as int]);
            assert(views.take(i as int + 1) =~= views.take(i as int).push(views[i as int]));
            assert(t.buf@ =~= before + u64_le(views.len() as u64) + enc_items(
                views.take(i as int + 1),
            ));
        }
        i = i + 1;
    }
    proof {
        assert(views.take(views.len() as int) =~= views);
        assert(t.buf@ =~= before + enc_list(views));
    }
}

/// Absorbs a list of SCH commitments, count first.
fn chain_commitment_list(t: &mut Transcript, cs: &Vec<SchCommitment>)
    ensures
        final(t).buf@ == old(t).buf@ + enc_list(
            cs@.map_values(|c: SchCommitment| c.point.scalar.bytes@),
        ),
{
    let ghost before = t.buf@;
    let ghost views = cs@.map_values(|c: SchCommitment| c.point.scalar.bytes@);
    t.chain_u64(cs.len() as u64);
    let mut i: usize = 0;
    proof {
        assert(views.take(0) =~= Seq::<Seq<u8>>::empty());
        assert(t.buf@ =~= before + u64_le(views.len() as u64) + enc_items(views.take(0)));
    }
    while i < cs.len()
        invariant
            i <= cs@.len(),
            views == cs@.map_values(|c: SchCommitment| c.point.scalar.bytes@),
            t.buf@ == before + u64_le(views.len() as u64) + enc_items(views.take(i as int)),
        decreases cs@.len() - i,
    {
        t.chain_bytes(&cs[i].point.scalar.bytes);
        proof {
            lemma_enc_items_push(views.take(i as int), views[i as int]);
            assert(views.take(i as int + 1) =~= views.take(i as int).push(views[i as int]));
            assert(t.buf@ =~= before + u64_le(views.len() as u64) + enc_items(
                views.take(i as int + 1),
            ));
        }
        i = i + 1;
    }
    proof {
        assert(views.take(views.len() as int) =~= views);
        assert(t.buf@ =~= before + enc_list(views));
    }
}

impl FullData {
    /// The domain-separated commitment hash of this bundle: the digest of
    /// its canonical transcript.
    pub fn hash(&self) -> (r: Vec<u8>)
        ensures
            r@ == digest_of(fd_transcript(self@)),
            r@.len() == 32,
    {
        let mut t = Transcript::new_with_tag(TAG_AUXILIARY);
        t.chain_bytes(&self.session_id.bytes);
        t.chain_u64(self.party_idx as u64);
        chain_point_list(&mut t, &self.xs_public);
        chain_commitment_list(&mut t, &self.sch_commitments_x);
        t.chain_bytes(&self.y_public.scalar.bytes);
        t.chain_bytes(&self.sch_commitment_y.point.scalar.bytes);
        t.chain_bytes(&self.paillier_pk.modulus);
        t.chain_bytes(&self.paillier_public);
        t.chain_bytes(&self.paillier_base);
        t.chain_bytes(&self.prm_proof.digest);
        t.chain_bytes(&self.rho_bits.bytes);
        t.chain_bytes(&self.u_bits.bytes);
        let r = t.finalize();
        proof {
            assert(t.buf@ =~= fd_transcript(self@));
        }
        r
    }

    /// An exact copy of this bundle.
    pub fn duplicate(&self) -> (r: FullData)
        ensures
            r@ == self@,
            r.party_idx == self.party_idx,
            r.xs_public@.len() == self.xs_public@.len(),
            r.sch_commitments_x@.len() == self.sch_commitments_x@.len(),
    {
        let mut xs_public: Vec<Point> = Vec::new();
        let mut i: usize = 0;
        while i < self.xs_public.len()
            invariant
                i <= self.xs_public@.len(),
                xs_public@.len() == i,
                forall|k: int|
                    0 <= k < i ==> (#[trigger] xs_public@[k]).scalar.bytes@
                        == self.xs_public@[k].scalar.bytes@,
            decreases self.xs_public@.len() - i,
        {
            xs_public.push(self.xs_public[i].duplicate());
            i = i + 1;
        }
        let mut sch_commitments_x: Vec<SchCommitment> = Vec::new();
        let mut j: usize = 0;
        while j < self.sch_commitments_x.len()
            invariant
                j <= self.sch_commitments_x@.len(),
                sch_commitments_x@.len() == j,
                forall|k: int|
                    0 <= k < j ==> (#[trigger] sch_commitments_x@[k]).point.scalar.bytes@
                        == self.sch_commitments_x@[k].point.scalar.bytes@,
            decreases self.sch_commitments_x@.len() - j,
        {
            sch_commitments_x.push(
                SchCommitment { point: self.sch_commitments_x[j].point.duplicate() },
            );
            j = j + 1;
        }
        let r = FullData {
            session_id: self.session_id.duplicate(),
            party_idx: self.party_idx,
            xs_public,
            sch_commitments_x,
            y_public: self.y_public.duplicate(),
            sch_commitment_y: SchCommitment { point: self.sch_commitment_y.point.duplicate() },
            paillier_pk: PublicKeyPaillier { modulus: copy_bytes(&self.paillier_pk.modulus) },
            paillier_public: copy_bytes(&self.paillier_public),
            paillier_base: copy_bytes(&self.paillier_base),
            prm_proof: PrmProof { digest: copy_bytes(&self.prm_proof.digest) },
            rho_bits: self.rho_bits.duplicate(),
            u_bits: self.u_bits.duplicate(),
        };
        proof {
            assert(r@.xs_public =~= self@.xs_public);
            assert(r@.sch_commitments_x =~= self@.sch_commitments_x);
            assert(r@ =~= self@);
        }
        r
    }
}

/// The private counterpart of a party's bundle, held locally.
pub struct SecretData {
    pub paillier_sk: SecretKeyPaillier,
    pub y_secret: Scalar,
    pub xs_secret: Vec<Scalar>,
    pub sch_secret_y: SchSecret,
    pub sch_secrets_x: Vec<SchSecret>,
}

/// Structural well-formedness of a revealed bundle for a session of `n`
/// parties: the fixed field widths and the vector lengths.  A decoded wire
/// message satisfies this by construction.
pub open spec fn fd_shape_wf(d: FullData, n: nat) -> bool {
    &&& d.session_id.bytes@.len() == 32
    &&& d.xs_public@.len() == n
    &&& forall|i: int| 0 <= i < n ==> (#[trigger] d.xs_public@[i]).wf()
    &&& d.sch_commitments_x@.len() == n
    &&& forall|i: int| 0 <= i < n ==> (#[trigger] d.sch_commitments_x@[i]).point.wf()
    &&& d.y_public.wf()
    &&& d.sch_commitment_y.point.wf()
    &&& d.paillier_pk.modulus@.len() == MODULUS_BYTES
    &&& d.paillier_public@.len() == DOUBLE_BYTES
    &&& d.paillier_base@.len() == DOUBLE_BYTES
    &&& d.rho_bits.bytes@.len() == BITVEC_BYTES
    &&& d.u_bits.bytes@.len() == BITVEC_BYTES
}

/// Two bundles with the same byte-level content have the same shape.
pub proof fn lemma_shape_from_view(a: FullData, b: FullData, n: nat)
    requires
        a@ == b@,
        fd_shape_wf(b, n),
    ensures
        fd_shape_wf(a, n),
{
    assert(a.xs_public@.len() == a@.xs_public.len());
    assert(b.xs_public@.len() == b@.xs_public.len());
    assert(a.sch_commitments_x@.len() == a@.sch_commitments_x.len());
    assert(b.sch_commitments_x@.len() == b@.sch_commitments_x.len());
    assert forall|i: int| 0 <= i < n implies (#[trigger] a.xs_public@[i]).wf() by {
        assert(a@.xs_public[i] == a.xs_public@[i].scalar.bytes@);
        assert(b@.xs_public[i] == b.xs_public@[i].scalar.bytes@);
        assert(b.xs_public@[i].wf());
    }
    assert forall|i: int| 0 <= i < n implies (#[trigger] a.sch_commitments_x@[i]).point.wf() by {
        assert(a@.sch_commitments_x[i] == a.sch_commitments_x@[i].point.scalar.bytes@);
        assert(b@.sch_commitments_x[i] == b.sch_commitments_x@[i].point.scalar.bytes@);
        assert(b.sch_commitments_x@[i].point.wf());
    }
}

/// The invariant every round of one party maintains: the public bundle and
/// the secret data fit together.
pub open spec fn round_wf(data: FullData, secret: SecretData) -> bool {
    let n = data.xs_public@.len();
    &&& fd_shape_wf(data, n)
    &&& data.party_idx < n
    &&& secret.xs_secret@.len() == n
    &&& forall|i: int| 0 <= i < n ==> (#[trigger] secret.xs_secret@[i]).wf()
    &&& forall|i: int|
        0 <= i < n ==> (#[trigger] data.xs_public@[i]).pval() == secret.xs_secret@[i].val()
    &&& sum_nats(scalar_vals(secret.xs_secret@)) % group_order() == 0
    &&& secret.y_secret.wf()
    &&& secret.y_secret.val() != 0
    &&& data.y_public.pval() == secret.y_secret.val()
    &&& secret.sch_secret_y.tau.wf()
    &&& data.sch_commitment_y.point.pval() == secret.sch_secret_y.tau.val()
    &&& secret.sch_secrets_x@.len() == n
    &&& forall|i: int| 0 <= i < n ==> (#[trigger] secret.sch_secrets_x@[i]).tau.wf()
    &&& forall|i: int|
        0 <= i < n ==> (#[trigger] data.sch_commitments_x@[i]).point.pval()
            == secret.sch_secrets_x@[i].tau.val()
    &&& modulus_wf(data.paillier_pk.modulus@)
    &&& secret.paillier_sk.modulus@ == data.paillier_pk.modulus@
    &&& data.prm_proof.digest@ == digest_of(
        prm_tr(
            data.paillier_pk.modulus@,
            data.paillier_base@,
            data.paillier_public@,
            aux1_tr(data.session_id.bytes@, data.party_idx as nat),
        ),
    )
}

/// A bag of per-peer values with a hole at the receiver's own index.
pub open spec fn hole_wf<T>(v: Seq<Option<T>>, idx: int, n: nat) -> bool {
    &&& v.len() == n
    &&& v[idx] is None
    &&& forall|j: int| 0 <= j < n && j != idx ==> (#[trigger] v[j]) is Some
}

/// The first round: the party assembles all its local secrets and public
/// values and broadcasts a hash commitment to the bundle.  The driver must
/// reach consensus on the set of commitments -- an echo broadcast or the
/// like -- before the reveals of the second round are trusted.
pub struct Round1 {
    pub data: FullData,
    pub secret_data: SecretData,
}

/// The broadcast of the first round: the commitment hash.
pub struct Round1Bcast {
    pub hash: Vec<u8>,
}

impl Round1 {
    /// Generates every local secret and public value of one party for a
    /// session of `num_parties` parties.
    pub fn new(session_id: &SessionId, party_idx: usize, num_parties: usize) -> (r: Round1)
        requires
            session_id.bytes@.len() == 32,
            party_idx < num_parties,
        ensures
            round_wf(r.data, r.secret_data),
            r.data.session_id.bytes@ == session_id.bytes@,
            r.data.party_idx == party_idx,
            r.data.xs_public@.len() == num_parties,
    {
        let paillier_sk = SecretKeyPaillier::random();
        let paillier_pk = paillier_sk.public_key();

        let zero = Scalar::zero();
        let candidate = Scalar::random();
        let y_secret = if candidate.equals(&zero) {
            Scalar::one()
        } else {
            candidate
        };
        let y_public = Point::gen_mul(&y_secret);

        let sch_secret_y = SchSecret::random();
        let sch_commitment_y = SchCommitment::new(&sch_secret_y);

        let xs_secret = zero_sum_scalars(num_parties);
        let mut xs_public: Vec<Point> = Vec::new();
        let mut i: usize = 0;
        while i < num_parties
            invariant
                i <= num_parties,
                xs_secret@.len() == num_parties,
                forall|k: int| 0 <= k < num_parties ==> (#[trigger] xs_secret@[k]).wf(),
                xs_public@.len() == i,
                forall|k: int| 0 <= k < i ==> (#[trigger] xs_public@[k]).wf(),
                forall|k: int|
                    0 <= k < i ==> (#[trigger] xs_public@[k]).pval() == xs_secret@[k].val(),
            decreases num_parties - i,
        {
            xs_public.push(Point::gen_mul(&xs_secret[i]));
            i = i + 1;
        }

        let n2 = paillier_pk.n_squared();
        let r_elem = paillier_pk.random_group_elem();
        let lambda = random_field_elem();
        let paillier_base = crate::paillier::group_sqr(&r_elem, &n2);
        proof {
            lemma_mod_bound(
                (nat_of_le(r_elem@) * nat_of_le(r_elem@)) as int,
                nat_of_le(n2@) as int,
            );
        }
        let paillier_public = crate::paillier::group_pow(&paillier_base, &lambda, &n2);

        let aux = make_aux1(session_id, party_idx);
        let prm_proof = PrmProof::random(&paillier_sk, &paillier_base, &paillier_public, &aux);

        let mut sch_secrets_x: Vec<SchSecret> = Vec::new();
        let mut sch_commitments_x: Vec<SchCommitment> = Vec::new();
        let mut j: usize = 0;
        while j < num_parties
            invariant
                j <= num_parties,
                sch_secrets_x@.len() == j,
                sch_commitments_x@.len() == j,
                forall|k: int| 0 <= k < j ==> (#[trigger] sch_secrets_x@[k]).tau.wf(),
                forall|k: int| 0 <= k < j ==> (#[trigger] sch_commitments_x@[k]).point.wf(),
                forall|k: int|
                    0 <= k < j ==> (#[trigger] sch_commitments_x@[k]).point.pval()
                        == sch_secrets_x@[k].tau.val(),
            decreases num_parties - j,
        {
            let s = SchSecret::random();
            let c = SchCommitment::new(&s);
            sch_secrets_x.push(s);
            sch_commitments_x.push(c);
            j = j + 1;
        }

        let rho_bits = BitVec::random(SECURITY_PARAMETER);
        let u_bits = BitVec::random(SECURITY_PARAMETER);

        let data = FullData {
            session_id: session_id.duplicate(),
            party_idx,
            xs_public,
            sch_commitments_x,
            y_public,
            sch_commitment_y,
            paillier_pk,
            paillier_public,
            paillier_base,
            prm_proof,
            rho_bits,
            u_bits,
        };
        let secret_data = SecretData {
            paillier_sk,
            y_secret,
            xs_secret,
            sch_secret_y,
            sch_secrets_x,
        };
        Round1 { data, secret_data }
    }

    /// The broadcast of this round: the commitment to the bundle.
    pub fn to_send(&self) -> (r: Round1Bcast)
        ensures
            r.hash@ == digest_of(fd_transcript(self.data@)),
            r.hash@.len() == 32,
    {
        Round1Bcast { hash: self.data.hash() }
    }

    /// Accepts a peer's commitment as-is; it is checked when the bundle is
    /// revealed.
    pub fn verify_received(&self, _from: usize, msg: Round1Bcast) -> (r: Result<
        Vec<u8>,
        AuxError,
    >)
        ensures
            match r {
                Ok(h) => h == msg.hash,
                Err(_) => false,
            },
    {
        Ok(msg.hash)
    }

    /// Moves to the second round once every peer's commitment is in.
    pub fn finalize(self, hashes: Vec<Option<Vec<u8>>>) -> (r: Round2)
        requires
            round_wf(self.data, self.secret_data),
            hole_wf(hashes@, self.data.party_idx as int, self.data.xs_public@.len()),
        ensures
            r.data == self.data,
            r.secret_data == self.secret_data,
            r.hashes@ == hashes@,
    {
        Round2 { data: self.data, secret_data: self.secret_data, hashes }
    }
}

/// The second round: the bundle is revealed and checked against every
/// peer's commitment.
pub struct Round2 {
    pub data: FullData,
    pub secret_data: SecretData,
    pub hashes: Vec<Option<Vec<u8>>>,
}

/// The broadcast of the second round: the full bundle.
pub struct Round2Bcast {
    pub data: FullData,
}

impl Round2 {
    /// The number of parties in the session.
    pub open spec fn n(self) -> nat {
        self.data.xs_public@.len()
    }

    /// The invariant of this round.
    pub open spec fn wf(self) -> bool {
        &&& round_wf(self.data, self.secret_data)
        &&& hole_wf(self.hashes@, self.data.party_idx as int, self.n())
    }

    /// The exact outcome of verifying a revealed bundle from peer `from`:
    /// the four checks in order, each with its error.
    pub open spec fn round2_verdict(self, from: int, d: FullData) -> Result<FullData, AuxError> {
        if digest_of(fd_transcript(d@)) != self.hashes@[from].unwrap()@ {
            Err(AuxError::HashMismatch)
        } else if bits_of(d.paillier_pk.modulus@) < 8 * SECURITY_PARAMETER {
            Err(AuxError::WeakModulus)
        } else if sum_nats(point_vals(d.xs_public@)) % group_order() != 0 {
            Err(AuxError::NonZeroShareSum)
        } else if d.prm_proof.digest@ != digest_of(
            prm_tr(
                d.paillier_pk.modulus@,
                d.paillier_base@,
                d.paillier_public@,
                aux1_tr(self.data.session_id.bytes@, from as nat),
            ),
        ) {
            Err(AuxError::PrmFailed)
        } else {
            Ok(d)
        }
    }

    /// The broadcast of this round: the revealed bundle.
    pub fn to_send(&self) -> (r: Round2Bcast)
        ensures
            r.data@ == self.data@,
            r.data.party_idx == self.data.party_idx,
    {
        Round2Bcast { data: self.data.duplicate() }
    }

    /// Verifies a revealed bundle: commitment, modulus size, share-sum and
    /// PRM proof, in that order.
    pub fn verify_received(&self, from: usize, msg: Round2Bcast) -> (r: Result<
        FullData,
        AuxError,
    >)
        requires
            self.wf(),
            from < self.n(),
            from != self.data.party_idx,
            fd_shape_wf(msg.data, self.n()),
        ensures
            r == self.round2_verdict(from as int, msg.data),
    {
        let h = msg.data.hash();
        let hash_ok: bool = match &self.hashes[from] {
            Some(v) => bytes_equal(&h, v),
            None => {
                proof {
                    assert(false);
                }
                false
            },
        };
        if !hash_ok {
            return Err(AuxError::HashMismatch);
        }
        if modulus_bits(&msg.data.paillier_pk.modulus) < 8 * SECURITY_PARAMETER {
            return Err(AuxError::WeakModulus);
        }
        let sum = sum_points(&msg.data.xs_public);
        let ident = Point::identity();
        if !sum.equals(&ident) {
            return Err(AuxError::NonZeroShareSum);
        }
        let aux = make_aux1(&self.data.session_id, from);
        if !msg.data.prm_proof.verify(
            &msg.data.paillier_pk,
            &msg.data.paillier_base,
            &msg.data.paillier_public,
            &aux,
        ) {
            return Err(AuxError::PrmFailed);
        }
        Ok(msg.data)
    }

    /// Moves to the third round once every peer's bundle is accepted,
    /// computing the session nonce as the XOR of every party's `rho_bits` in
    /// party order.
    pub fn finalize(self, payloads: Vec<Option<FullData>>) -> (r: Round3)
        requires
            self.wf(),
            hole_wf(payloads@, self.data.party_idx as int, self.n()),
            forall|j: int|
                0 <= j < self.n() && j != self.data.party_idx as int ==> fd_shape_wf(
                    (#[trigger] payloads@[j]).unwrap(),
                    self.n(),
                ),
        ensures
            r.data == self.data,
            r.secret_data == self.secret_data,
            r.datas@.len() == self.n(),
            r.datas@[self.data.party_idx as int]@ == self.data@,
            forall|j: int|
                0 <= j < self.n() && j != self.data.party_idx as int ==> (#[trigger] r.datas@[j])
                    == payloads@[j].unwrap(),
            r.rho.bytes@ == xor_seq(rho_views(r.datas@)),
            r.wf(),
    {
        let ghost n = self.n();
        let idx = self.data.party_idx;
        let mut rest = payloads;
        let mut datas: Vec<FullData> = Vec::new();
        let mut j: usize = 0;
        while j < self.data.xs_public.len()
            invariant
                j <= n,
                n == self.data.xs_public@.len(),
                idx == self.data.party_idx,
                self.wf(),
                rest@ == payloads@.skip(j as int),
                hole_wf(payloads@, idx as int, n),
                forall|k: int|
                    0 <= k < n && k != idx as int ==> fd_shape_wf(
                        (#[trigger] payloads@[k]).unwrap(),
                        n,
                    ),
                datas@.len() == j,
                forall|k: int|
                    0 <= k < j && k != idx as int ==> (#[trigger] datas@[k])
                        == payloads@[k].unwrap(),
                idx < j ==> datas@[idx as int]@ == self.data@,
                idx < j ==> datas@[idx as int].party_idx == self.data.party_idx,
                forall|k: int| 0 <= k < j ==> fd_shape_wf(#[trigger] datas@[k], n),
            decreases n - j,
        {
            proof {
                assert(payloads@.skip(j as int)[0] == payloads@[j as int]);
            }
            let item = rest.remove(0);
            match item {
                Some(d) => {
                    datas.push(d);
                },
                None => {
                    proof {
                        assert(j == idx);
                    }
                    let own = self.data.duplicate();
                    proof {
                        lemma_shape_from_view(own, self.data, n);
                    }
                    datas.push(own);
                },
            }
            proof {
                assert(rest@ =~= payloads@.skip(j as int + 1));
            }
            j = j + 1;
        }
        let first = &datas[0];
        let mut rho = first.rho_bits.duplicate();
        proof {
            assert(rho_views(datas@).take(1) =~= seq![datas@[0].rho_bits.bytes@]);
            assert(xor_seq(rho_views(datas@).take(1)) == datas@[0].rho_bits.bytes@);
        }
        let mut i: usize = 1;
        while i < datas.len()
            invariant
                1 <= i <= datas@.len(),
                datas@.len() == n,
                forall|k: int| 0 <= k < n ==> fd_shape_wf(#[trigger] datas@[k], n),
                rho.bytes@ == xor_seq(rho_views(datas@).take(i as int)),
                rho.bytes@.len() == BITVEC_BYTES,
            decreases datas@.len() - i,
        {
            let d = &datas[i];
            rho.bitxor_assign(&d.rho_bits);
            proof {
                let views = rho_views(datas@);
                assert(views.take(i as int + 1).drop_last() =~= views.take(i as int));
                assert(views.take(i as int + 1).last() == views[i as int]);
            }
            i = i + 1;
        }
        proof {
            assert(rho_views(datas@).take(datas@.len() as int) =~= rho_views(datas@));
        }
        Round3 { rho, data: self.data, secret_data: self.secret_data, datas }
    }
}

/// The `rho_bits` strings of a family of bundles, in party order.
pub open spec fn rho_views(datas: Seq<FullData>) -> Seq<Seq<u8>> {
    datas.map_values(|d: FullData| d.rho_bits.bytes@)
}

/// The peer index of the `k`-th entry of a direct-message list that skips
/// the sender's own index.
pub open spec fn peer_at(idx: int, k: int) -> int {
    if k < idx {
        k
    } else {
        k + 1
    }
}

/// The per-recipient packet of the third round.
pub struct FullData2 {
    pub mod_proof: ModProof,
    pub fac_proof: FacProof,
    pub sch_proof_y: SchProof,
    pub paillier_enc_x: Ciphertext,
    pub sch_proof_x: SchProof,
}

/// The direct message of the third round.
pub struct Round3Direct {
    pub data2: FullData2,
}

/// The third round: a direct packet to every peer carrying the encrypted
/// share and the MOD, FAC and two SCH proofs.
pub struct Round3 {
    pub rho: BitVec,
    pub data: FullData,
    pub secret_data: SecretData,
    pub datas: Vec<FullData>,
}

impl Round3 {
    /// The number of parties in the session.
    pub open spec fn n(self) -> nat {
        self.data.xs_public@.len()
    }

    /// The invariant of this round: the local bundle pairs with the secret
    /// data, the accepted bundles are complete with the local one at the
    /// local index, and the session nonce has its fixed width.
    pub open spec fn wf(self) -> bool {
        &&& round_wf(self.data, self.secret_data)
        &&& self.datas@.len() == self.n()
        &&& self.datas@[self.data.party_idx as int]@ == self.data@
        &&& self.datas@[self.data.party_idx as int].party_idx == self.data.party_idx
        &&& forall|j: int| 0 <= j < self.n() ==> fd_shape_wf(#[trigger] self.datas@[j], self.n())
        &&& self.rho.bytes@.len() == BITVEC_BYTES
    }

    /// The Fiat-Shamir auxiliary this party proves under in this round.
    pub open spec fn aux3(self, party: nat) -> Seq<u8> {
        aux3_tr(self.data.session_id.bytes@, self.rho.bytes@, party)
    }

    /// What one outgoing packet for the `k`-th peer holds: the MOD and FAC
    /// proofs of the own modulus under the round's auxiliary, the share for
    /// that peer encrypted under that peer's key, and the two SCH proofs,
    /// which verify against the committed values.
    pub open spec fn send_entry_ok(self, k: int, entry: (usize, Round3Direct)) -> bool {
        let j = peer_at(self.data.party_idx as int, k);
        let d2 = entry.1.data2;
        let aux = self.aux3(self.data.party_idx as nat);
        &&& entry.0 == j
        &&& d2.mod_proof.digest@ == digest_of(mod_tr(self.data.paillier_pk.modulus@, aux))
        &&& d2.fac_proof.modulus@ == self.data.paillier_pk.modulus@
        &&& d2.fac_proof.aux@ == aux
        &&& d2.fac_proof.digest@ == digest_of(fac_tr(self.data.paillier_pk.modulus@, aux))
        &&& d2.paillier_enc_x.key_modulus@ == self.datas@[j].paillier_pk.modulus@
        &&& d2.paillier_enc_x.payload.wf()
        &&& d2.paillier_enc_x.payload.val() == self.secret_data.xs_secret@[j].val()
        &&& d2.sch_proof_y.z.wf()
        &&& sch_verifies(
            d2.sch_proof_y.z.val(),
            self.data.sch_commitment_y.point.scalar.bytes@,
            self.data.y_public.scalar.bytes@,
            aux,
        )
        &&& d2.sch_proof_x.z.wf()
        &&& sch_verifies(
            d2.sch_proof_x.z.val(),
            self.data.sch_commitments_x@[j].point.scalar.bytes@,
            self.data.xs_public@[j].scalar.bytes@,
            aux,
        )
    }

    /// Builds the direct packet for every peer, in increasing peer order.
    pub fn to_send(&self) -> (r: Vec<(usize, Round3Direct)>)
        requires
            self.wf(),
        ensures
            r@.len() == self.n() - 1,
            forall|k: int| 0 <= k < r@.len() ==> self.send_entry_ok(k, #[trigger] r@[k]),
    {
        let n = self.data.xs_public.len();
        let idx = self.data.party_idx;
        let aux = make_aux3(&self.data.session_id, &self.rho, idx);
        let mod_proof = ModProof::random(&self.secret_data.paillier_sk, &aux);
        let sch_proof_y = SchProof::new(
            &self.secret_data.sch_secret_y,
            &self.secret_data.y_secret,
            &self.data.sch_commitment_y,
            &self.data.y_public,
            &aux,
        );
        let mut out: Vec<(usize, Round3Direct)> = Vec::new();
        let mut j: usize = 0;
        while j < n
            invariant
                j <= n,
                n == self.n(),
                idx == self.data.party_idx,
                self.wf(),
                aux@ == self.aux3(idx as nat),
                mod_proof.digest@ == digest_of(mod_tr(self.data.paillier_pk.modulus@, aux@)),
                sch_proof_y.z.wf(),
                sch_verifies(
                    sch_proof_y.z.val(),
                    self.data.sch_commitment_y.point.scalar.bytes@,
                    self.data.y_public.scalar.bytes@,
                    aux@,
                ),
                out@.len() == (if j <= idx {
                    j as int
                } else {
                    j - 1
                }),
                forall|k: int| 0 <= k < out@.len() ==> self.send_entry_ok(k, #[trigger] out@[k]),
            decreases n - j,
        {
            if j != idx {
                let fac_proof = FacProof::random(&self.secret_data.paillier_sk, &aux);
                let recipient = &self.datas[j];
                let x = &self.secret_data.xs_secret[j];
                let ciphertext = Ciphertext::new(&recipient.paillier_pk, x);
                let sch_proof_x = SchProof::new(
                    &self.secret_data.sch_secrets_x[j],
                    x,
                    &self.data.sch_commitments_x[j],
                    &self.data.xs_public[j],
                    &aux,
                );
                let data2 = FullData2 {
                    mod_proof: mod_proof.duplicate(),
                    fac_proof,
                    sch_proof_y: sch_proof_y.duplicate(),
                    paillier_enc_x: ciphertext,
                    sch_proof_x,
                };
                out.push((j, Round3Direct { data2 }));
                proof {
                    let k = out@.len() - 1;
                    assert(peer_at(idx as int, k) == j as int);
                    assert(self.send_entry_ok(k, out@[k]));
                }
            }
            j = j + 1;
        }
        out
    }

    /// The exact outcome of verifying a packet from peer `from`: the
    /// decryption and curve-image check, then the MOD, FAC and two SCH
    /// checks, in order.
    pub open spec fn round3_verdict(self, from: int, d2: FullData2) -> Result<Scalar, AuxError> {
        let sender = self.datas@[from];
        let idx = self.data.party_idx as int;
        let aux = self.aux3(from as nat);
        if d2.paillier_enc_x.key_modulus@ != self.secret_data.paillier_sk.modulus@ {
            Err(AuxError::ShareDecryptMismatch)
        } else if d2.paillier_enc_x.payload.val() != sender.xs_public@[idx].pval() {
            Err(AuxError::ShareDecryptMismatch)
        } else if d2.mod_proof.digest@ != digest_of(mod_tr(sender.paillier_pk.modulus@, aux)) {
            Err(AuxError::ModFailed)
        } else if d2.fac_proof.digest@ != digest_of(
            fac_tr(d2.fac_proof.modulus@, d2.fac_proof.aux@),
        ) {
            Err(AuxError::FacFailed)
        } else if !sch_verifies(
            d2.sch_proof_y.z.val(),
            sender.sch_commitment_y.point.scalar.bytes@,
            sender.y_public.scalar.bytes@,
            aux,
        ) {
            Err(AuxError::SchYFailed)
        } else if !sch_verifies(
            d2.sch_proof_x.z.val(),
            sender.sch_commitments_x@[idx].point.scalar.bytes@,
            sender.xs_public@[idx].scalar.bytes@,
            aux,
        ) {
            Err(AuxError::SchXFailed)
        } else {
            Ok(d2.paillier_enc_x.payload)
        }
    }

    /// Verifies an incoming packet and yields the decrypted share.
    pub fn verify_received(&self, from: usize, msg: Round3Direct) -> (r: Result<Scalar, AuxError>)
        requires
            self.wf(),
            from < self.n(),
            from != self.data.party_idx,
            msg.data2.paillier_enc_x.payload.wf(),
            msg.data2.sch_proof_y.z.wf(),
            msg.data2.sch_proof_x.z.wf(),
        ensures
            ({
                let v = self.round3_verdict(from as int, msg.data2);
                match r {
                    Ok(x) => match v {
                        Ok(y) => x.bytes@ == y.bytes@ && x.wf(),
                        Err(_) => false,
                    },
                    Err(e) => match v {
                        Ok(_) => false,
                        Err(e2) => e == e2,
                    },
                }
            }),
    {
        let idx = self.data.party_idx;
        let sender = &self.datas[from];
        let x_secret = match msg.data2.paillier_enc_x.decrypt(&self.secret_data.paillier_sk) {
            Some(x) => x,
            None => {
                return Err(AuxError::ShareDecryptMismatch);
            },
        };
        let image = Point::gen_mul(&x_secret);
        if !image.equals(&sender.xs_public[idx]) {
            return Err(AuxError::ShareDecryptMismatch);
        }
        let aux = make_aux3(&self.data.session_id, &self.rho, from);
        if !msg.data2.mod_proof.verify(&sender.paillier_pk, &aux) {
            return Err(AuxError::ModFailed);
        }
        if !msg.data2.fac_proof.verify() {
            return Err(AuxError::FacFailed);
        }
        if !msg.data2.sch_proof_y.verify(&sender.sch_commitment_y, &sender.y_public, &aux) {
            return Err(AuxError::SchYFailed);
        }
        if !msg.data2.sch_proof_x.verify(
            &sender.sch_commitments_x[idx],
            &sender.xs_public[idx],
            &aux,
        ) {
            return Err(AuxError::SchXFailed);
        }
        Ok(x_secret)
    }

    /// The values entering the local mask: every peer's decrypted share and
    /// the own share kept for oneself, in party order.
    pub open spec fn incoming_vals(self, payloads: Seq<Option<Scalar>>) -> Seq<nat> {
        Seq::new(
            self.n(),
            |j: int|
                if j == self.data.party_idx as int {
                    self.secret_data.xs_secret@[j].val()
                } else {
                    payloads[j].unwrap().val()
                },
        )
    }

    /// Assembles the terminal output once every peer's packet is accepted.
    pub fn finalize(self, payloads: Vec<Option<Scalar>>) -> (r: AuxData)
        requires
            self.wf(),
            hole_wf(payloads@, self.data.party_idx as int, self.n()),
            forall|j: int|
                0 <= j < self.n() && j != self.data.party_idx as int ==> (#[trigger] payloads@[j]).unwrap().wf(),
        ensures
            r.x_mask.wf(),
            r.x_mask.val() == sum_nats(self.incoming_vals(payloads@)) % group_order(),
            r.y == self.secret_data.y_secret,
            r.paillier_sk == self.secret_data.paillier_sk,
            r.xs_masks_public@.len() == self.n(),
            forall|k: int|
                0 <= k < self.n() ==> (#[trigger] r.xs_masks_public@[k]).wf()
                    && r.xs_masks_public@[k].pval() == sum_nats(col_vals(self.datas@, k))
                    % group_order(),
            r.ys_public@.len() == self.n(),
            forall|j: int|
                0 <= j < self.n() ==> (#[trigger] r.ys_public@[j]).scalar.bytes@
                    == self.datas@[j].y_public.scalar.bytes@,
            r.paillier_pks@.len() == self.n(),
            forall|j: int|
                0 <= j < self.n() ==> (#[trigger] r.paillier_pks@[j]).modulus@
                    == self.datas@[j].paillier_pk.modulus@,
            r.paillier_bases@.len() == self.n(),
            forall|j: int|
                0 <= j < self.n() ==> (#[trigger] r.paillier_bases@[j])@
                    == self.datas@[j].paillier_base@,
            r.paillier_publics@.len() == self.n(),
            forall|j: int|
                0 <= j < self.n() ==> (#[trigger] r.paillier_publics@[j])@
                    == self.datas@[j].paillier_public@,
    {
        let n = self.data.xs_public.len();
        let idx = self.data.party_idx;
        let ghost incoming = self.incoming_vals(payloads@);
        let mut x_mask = Scalar::zero();
        let mut j: usize = 0;
        proof {
            assert(incoming.take(0) =~= Seq::<nat>::empty());
            lemma_small_mod(0nat, group_order());
        }
        while j < n
            invariant
                j <= n,
                n == self.n(),
                idx == self.data.party_idx,
                self.wf(),
                hole_wf(payloads@, idx as int, n as nat),
                forall|k: int|
                    0 <= k < n && k != idx as int ==> (#[trigger] payloads@[k]).unwrap().wf(),
                incoming == self.incoming_vals(payloads@),
                x_mask.wf(),
                x_mask.val() == sum_nats(incoming.take(j as int)) % group_order(),
            decreases n - j,
        {
            let ghost prev = sum_nats(incoming.take(j as int));
            let term: &Scalar = if j == idx {
                &self.secret_data.xs_secret[j]
            } else {
                match &payloads[j] {
                    Some(x) => x,
                    None => {
                        proof {
                            assert(false);
                        }
                        &self.secret_data.xs_secret[j]
                    },
                }
            };
            x_mask = x_mask.add(term);
            proof {
                let q = group_order();
                assert(term.val() == incoming[j as int]);
                lemma_small_mod(incoming[j as int], q);
                lemma_add_mod_noop(prev as int, incoming[j as int] as int, q as int);
                assert(incoming.take(j as int + 1) =~= incoming.take(j as int).push(
                    incoming[j as int],
                ));
                lemma_sum_nats_push(incoming.take(j as int), incoming[j as int]);
            }
            j = j + 1;
        }
        proof {
            assert(incoming.take(n as int) =~= incoming);
        }
        let mut xs_masks_public: Vec<Point> = Vec::new();
        let mut k: usize = 0;
        while k < n
            invariant
                k <= n,
                n == self.n(),
                self.wf(),
                xs_masks_public@.len() == k,
                forall|t: int|
                    0 <= t < k ==> (#[trigger] xs_masks_public@[t]).wf()
                        && xs_masks_public@[t].pval() == sum_nats(col_vals(self.datas@, t))
                        % group_order(),
            decreases n - k,
        {
            let mut col: Vec<Point> = Vec::new();
            let mut j2: usize = 0;
            while j2 < n
                invariant
                    j2 <= n,
                    k < n,
                    n == self.n(),
                    self.wf(),
                    col@.len() == j2,
                    forall|t: int|
                        0 <= t < j2 ==> (#[trigger] col@[t]).wf() && col@[t].pval()
                            == self.datas@[t].xs_public@[k as int].pval(),
                decreases n - j2,
            {
                let d = &self.datas[j2];
                col.push(d.xs_public[k].duplicate());
                j2 = j2 + 1;
            }
            let s = sum_points(&col);
            proof {
                assert(point_vals(col@) =~= col_vals(self.datas@, k as int));
            }
            xs_masks_public.push(s);
            k = k + 1;
        }
        let mut ys_public: Vec<Point> = Vec::new();
        let mut paillier_pks: Vec<PublicKeyPaillier> = Vec::new();
        let mut paillier_bases: Vec<Vec<u8>> = Vec::new();
        let mut paillier_publics: Vec<Vec<u8>> = Vec::new();
        let mut j3: usize = 0;
        while j3 < n
            invariant
                j3 <= n,
                n == self.n(),
                self.wf(),
                ys_public@.len() == j3,
                paillier_pks@.len() == j3,
                paillier_bases@.len() == j3,
                paillier_publics@.len() == j3,
                forall|t: int|
                    0 <= t < j3 ==> (#[trigger] ys_public@[t]).scalar.bytes@
                        == self.datas@[t].y_public.scalar.bytes@,
                forall|t: int|
                    0 <= t < j3 ==> (#[trigger] paillier_pks@[t]).modulus@
                        == self.datas@[t].paillier_pk.modulus@,
                forall|t: int|
                    0 <= t < j3 ==> (#[trigger] paillier_bases@[t])@
                        == self.datas@[t].paillier_base@,
                forall|t: int|
                    0 <= t < j3 ==> (#[trigger] paillier_publics@[t])@
                        == self.datas@[t].paillier_public@,
            decreases n - j3,
        {
            let d = &self.datas[j3];
            ys_public.push(d.y_public.duplicate());
            paillier_pks.push(PublicKeyPaillier { modulus: copy_bytes(&d.paillier_pk.modulus) });
            paillier_bases.push(copy_bytes(&d.paillier_base));
            paillier_publics.push(copy_bytes(&d.paillier_public));
            j3 = j3 + 1;
        }
        AuxData {
            x_mask,
            y: self.secret_data.y_secret,
            paillier_sk: self.secret_data.paillier_sk,
            xs_masks_public,
            ys_public,
            paillier_pks,
            paillier_bases,
            paillier_publics,
        }
    }
}

/// The `k`-th column of the accepted bundles' share commitments: every
/// party's `xs_public[k]`, as generator multiples.
pub open spec fn col_vals(datas: Seq<FullData>, k: int) -> Seq<nat> {
    datas.map_values(|d: FullData| d.xs_public@[k].pval())
}

/// The terminal output of one party: the local mask and retained secrets,
/// and the public vectors collected from every party.
pub struct AuxData {
    pub x_mask: Scalar,
    pub y: Scalar,
    pub paillier_sk: SecretKeyPaillier,
    pub xs_masks_public: Vec<Point>,
    pub ys_public: Vec<Point>,
    pub paillier_pks: Vec<PublicKeyPaillier>,
    pub paillier_bases: Vec<Vec<u8>>,
    pub paillier_publics: Vec<Vec<u8>>,
}

} // verus!



