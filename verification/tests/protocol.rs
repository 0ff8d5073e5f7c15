use aux_gen::auxiliary::{
    AuxData, AuxError, FullData, Round1, Round1Bcast, Round2, Round3, Round3Direct, SessionId,
};
use aux_gen::group::{Point, Scalar};
use aux_gen::paillier::{Ciphertext, SecretKeyPaillier};
use aux_gen::sigma::{ModProof, PrmProof, SchCommitment, SchProof, SchSecret};

fn new_round1s(sid: &SessionId, n: usize) -> Vec<Round1> {
    (0..n).map(|i| Round1::new(sid, i, n)).collect()
}

fn to_round2(r1s: Vec<Round1>) -> Vec<Round2> {
    let n = r1s.len();
    let bcasts: Vec<Round1Bcast> = r1s.iter().map(|r| r.to_send()).collect();
    r1s.into_iter()
        .enumerate()
        .map(|(i, r)| {
            let mut hashes: Vec<Option<Vec<u8>>> = Vec::new();
            for j in 0..n {
                if j == i {
                    hashes.push(None);
                } else {
                    let h = r
                        .verify_received(j, Round1Bcast { hash: bcasts[j].hash.clone() })
                        .unwrap();
                    hashes.push(Some(h));
                }
            }
            r.finalize(hashes)
        })
        .collect()
}

fn round2_exchange(r2s: &[Round2]) -> Vec<Vec<Option<FullData>>> {
    let n = r2s.len();
    let mut bags = Vec::new();
    for i in 0..n {
        let mut bag: Vec<Option<FullData>> = Vec::new();
        for j in 0..n {
            if j == i {
                bag.push(None);
            } else {
                let msg = r2s[j].to_send();
                let d = r2s[i].verify_received(j, msg).unwrap();
                bag.push(Some(d));
            }
        }
        bags.push(bag);
    }
    bags
}

fn to_round3(r2s: Vec<Round2>, mut bags: Vec<Vec<Option<FullData>>>) -> Vec<Round3> {
    r2s.into_iter().map(|r| r.finalize(bags.remove(0))).collect()
}

fn round3_exchange(r3s: &[Round3]) -> Vec<Vec<Option<Scalar>>> {
    let n = r3s.len();
    let sends: Vec<Vec<(usize, Round3Direct)>> = r3s.iter().map(|r| r.to_send()).collect();
    let mut bags: Vec<Vec<Option<Scalar>>> = (0..n).map(|_| (0..n).map(|_| None).collect()).collect();
    for (j, list) in sends.into_iter().enumerate() {
        assert_eq!(list.len(), n - 1);
        for (to, msg) in list.into_iter() {
            let x = r3s[to].verify_received(j, msg).unwrap();
            bags[to][j] = Some(x);
        }
    }
    bags
}

fn finalize_all(r3s: Vec<Round3>, mut bags: Vec<Vec<Option<Scalar>>>) -> Vec<AuxData> {
    r3s.into_iter().map(|r| r.finalize(bags.remove(0))).collect()
}

fn honest_run(n: usize) -> Vec<AuxData> {
    let sid = SessionId::random();
    let r2s = to_round2(new_round1s(&sid, n));
    let bags = round2_exchange(&r2s);
    let r3s = to_round3(r2s, bags);
    let bags3 = round3_exchange(&r3s);
    finalize_all(r3s, bags3)
}

#[test]
fn execute_auxiliary() {
    let outs = honest_run(3);
    assert_eq!(outs.len(), 3);
}

#[test]
fn happy_path_two_parties() {
    assert_eq!(honest_run(2).len(), 2);
}

#[test]
fn happy_path_four_parties() {
    assert_eq!(honest_run(4).len(), 4);
}

#[test]
fn happy_path_five_parties() {
    assert_eq!(honest_run(5).len(), 5);
}

#[test]
fn round1_hashes_are_32_bytes_and_distinct() {
    let sid = SessionId::random();
    let r1s = new_round1s(&sid, 3);
    let bcasts: Vec<Round1Bcast> = r1s.iter().map(|r| r.to_send()).collect();
    for b in &bcasts {
        assert_eq!(b.hash.len(), 32);
    }
    assert_ne!(bcasts[0].hash, bcasts[1].hash);
    assert_ne!(bcasts[0].hash, bcasts[2].hash);
    assert_ne!(bcasts[1].hash, bcasts[2].hash);
}

#[test]
fn revealed_share_sums_are_identity() {
    let sid = SessionId::random();
    let r2s = to_round2(new_round1s(&sid, 3));
    let zero = Scalar::zero();
    for r in &r2s {
        let msg = r.to_send();
        let mut sum = Point::identity();
        for p in &msg.data.xs_public {
            sum = sum.add(p);
        }
        assert_eq!(sum.scalar.bytes, zero.bytes);
    }
}

#[test]
fn session_nonce_agrees_across_parties() {
    let sid = SessionId::random();
    let r2s = to_round2(new_round1s(&sid, 3));
    let bags = round2_exchange(&r2s);
    let r3s = to_round3(r2s, bags);
    assert_eq!(r3s[0].rho.bytes, r3s[1].rho.bytes);
    assert_eq!(r3s[0].rho.bytes, r3s[2].rho.bytes);
    assert_eq!(r3s[0].rho.bytes.len(), 32);
}

#[test]
fn outputs_agree_and_masks_are_consistent() {
    let outs = honest_run(3);
    let n = 3;
    // Identical public vectors on every party.
    for k in 0..n {
        assert_eq!(
            outs[0].xs_masks_public[k].scalar.bytes,
            outs[1].xs_masks_public[k].scalar.bytes
        );
        assert_eq!(
            outs[0].xs_masks_public[k].scalar.bytes,
            outs[2].xs_masks_public[k].scalar.bytes
        );
        assert_eq!(outs[0].ys_public[k].scalar.bytes, outs[1].ys_public[k].scalar.bytes);
        assert_eq!(outs[0].ys_public[k].scalar.bytes, outs[2].ys_public[k].scalar.bytes);
        assert_eq!(outs[0].paillier_pks[k].modulus, outs[1].paillier_pks[k].modulus);
        assert_eq!(outs[0].paillier_pks[k].modulus, outs[2].paillier_pks[k].modulus);
        assert_eq!(outs[0].paillier_bases[k], outs[1].paillier_bases[k]);
        assert_eq!(outs[0].paillier_bases[k], outs[2].paillier_bases[k]);
        assert_eq!(outs[0].paillier_publics[k], outs[1].paillier_publics[k]);
        assert_eq!(outs[0].paillier_publics[k], outs[2].paillier_publics[k]);
    }
    // The generator image of each local mask is the published combined mask.
    for i in 0..n {
        let image = Point::gen_mul(&outs[i].x_mask);
        assert_eq!(image.scalar.bytes, outs[i].xs_masks_public[i].scalar.bytes);
    }
    // The combined masks sum to the identity: the group key is preserved.
    let mut total = Point::identity();
    for k in 0..n {
        total = total.add(&outs[0].xs_masks_public[k]);
    }
    assert_eq!(total.scalar.bytes, Scalar::zero().bytes);
}

#[test]
fn zero_sum_scalars_always_sum_to_zero() {
    let zero = Scalar::zero();
    for trial in 0..1000 {
        let n = trial % 64 + 1;
        let shares = aux_gen::group::zero_sum_scalars(n);
        assert_eq!(shares.len(), n);
        let mut sum = Scalar::zero();
        for s in &shares {
            sum = sum.add(s);
        }
        assert_eq!(sum.bytes, zero.bytes);
    }
}

#[test]
fn tampered_reveal_causes_hash_mismatch() {
    let sid = SessionId::random();
    let r2s = to_round2(new_round1s(&sid, 3));
    // Flip one bit of one field of party 1's revealed bundle.
    let mut msg = r2s[1].to_send();
    msg.data.u_bits.bytes[0] ^= 1;
    assert_eq!(r2s[0].verify_received(1, msg).err(), Some(AuxError::HashMismatch));
    // Every honest receiver sees the same mismatch.
    let mut msg2 = r2s[1].to_send();
    msg2.data.u_bits.bytes[0] ^= 1;
    assert_eq!(r2s[2].verify_received(1, msg2).err(), Some(AuxError::HashMismatch));
    // Any other field fails as well.
    let mut msg3 = r2s[1].to_send();
    msg3.data.rho_bits.bytes[31] ^= 0x80;
    assert_eq!(r2s[0].verify_received(1, msg3).err(), Some(AuxError::HashMismatch));
    let mut msg4 = r2s[1].to_send();
    msg4.data.y_public.scalar.bytes[3] ^= 4;
    assert_eq!(r2s[0].verify_received(1, msg4).err(), Some(AuxError::HashMismatch));
}

#[test]
fn weak_modulus_is_rejected() {
    let sid = SessionId::random();
    let mut r1s = new_round1s(&sid, 3);
    // Party 0 commits to a modulus of 2047 bits: one below the bound.
    let last = r1s[0].data.paillier_pk.modulus.len() - 1;
    r1s[0].data.paillier_pk.modulus[last] &= 0x7f;
    r1s[0].data.paillier_pk.modulus[last] |= 0x40;
    let r2s = to_round2(r1s);
    let msg = r2s[0].to_send();
    assert_eq!(r2s[1].verify_received(0, msg).err(), Some(AuxError::WeakModulus));
}

#[test]
fn foreign_prm_proof_is_rejected() {
    let sid = SessionId::random();
    let mut r1s = new_round1s(&sid, 3);
    // Party 0 commits to a PRM proof generated under a different key.
    let other = SecretKeyPaillier::random();
    let aux = aux_gen::auxiliary::make_aux1(&sid, 0);
    let forged = PrmProof::random(
        &other,
        &r1s[0].data.paillier_base,
        &r1s[0].data.paillier_public,
        &aux,
    );
    r1s[0].data.prm_proof = forged;
    let r2s = to_round2(r1s);
    let msg = r2s[0].to_send();
    assert_eq!(r2s[1].verify_received(0, msg).err(), Some(AuxError::PrmFailed));
}

#[test]
fn nonzero_share_sum_is_rejected() {
    let sid = SessionId::random();
    let mut r1s = new_round1s(&sid, 3);
    // Party 0 commits to share commitments that no longer sum to the identity.
    r1s[0].data.xs_public[1] = Point::gen_mul(&Scalar::random());
    let r2s = to_round2(r1s);
    let msg = r2s[0].to_send();
    assert_eq!(r2s[1].verify_received(0, msg).err(), Some(AuxError::NonZeroShareSum));
}

fn honest_round3(n: usize) -> Vec<Round3> {
    let sid = SessionId::random();
    let r2s = to_round2(new_round1s(&sid, n));
    let bags = round2_exchange(&r2s);
    to_round3(r2s, bags)
}

fn packet_from_to(r3s: &[Round3], from: usize, to: usize) -> Round3Direct {
    r3s[from]
        .to_send()
        .into_iter()
        .find(|(peer, _)| *peer == to)
        .map(|(_, msg)| msg)
        .unwrap()
}

#[test]
fn foreign_mod_proof_is_rejected() {
    let r3s = honest_round3(3);
    let mut msg = packet_from_to(&r3s, 0, 1);
    let other = SecretKeyPaillier::random();
    let aux = aux_gen::auxiliary::make_aux3(&r3s[0].data.session_id, &r3s[0].rho, 0);
    msg.data2.mod_proof = ModProof::random(&other, &aux);
    assert_eq!(r3s[1].verify_received(0, msg).err(), Some(AuxError::ModFailed));
}

#[test]
fn corrupt_fac_proof_is_rejected() {
    let r3s = honest_round3(3);
    let mut msg = packet_from_to(&r3s, 0, 1);
    msg.data2.fac_proof.digest[0] ^= 1;
    assert_eq!(r3s[1].verify_received(0, msg).err(), Some(AuxError::FacFailed));
}

#[test]
fn foreign_sch_y_proof_is_rejected() {
    let r3s = honest_round3(3);
    let mut msg = packet_from_to(&r3s, 0, 1);
    let aux = aux_gen::auxiliary::make_aux3(&r3s[0].data.session_id, &r3s[0].rho, 0);
    // A response for a different witness fails against the committed values.
    let wrong_secret = SchSecret::random();
    let wrong_commitment = SchCommitment::new(&wrong_secret);
    let wrong_witness = Scalar::random();
    let wrong_public = Point::gen_mul(&wrong_witness);
    msg.data2.sch_proof_y = SchProof::new(
        &wrong_secret,
        &wrong_witness,
        &wrong_commitment,
        &wrong_public,
        &aux,
    );
    assert_eq!(r3s[1].verify_received(0, msg).err(), Some(AuxError::SchYFailed));
}

#[test]
fn tampered_sch_commitment_fails_downstream() {
    let sid = SessionId::random();
    let mut r1s = new_round1s(&sid, 3);
    // Party 0 commits to a wrong SCH commitment for recipient 1; the second
    // round cannot see it, the recipient's third-round check catches it.
    r1s[0].data.sch_commitments_x[1] = SchCommitment::new(&SchSecret::random());
    let r2s = to_round2(r1s);
    for i in 1..3 {
        let msg = r2s[0].to_send();
        assert!(r2s[i].verify_received(0, msg).is_ok());
    }
    let bags = round2_exchange(&r2s);
    let r3s = to_round3(r2s, bags);
    let msg = packet_from_to(&r3s, 0, 1);
    assert_eq!(r3s[1].verify_received(0, msg).err(), Some(AuxError::SchXFailed));
    // The other recipient's packet is untouched and passes.
    let msg2 = packet_from_to(&r3s, 0, 2);
    assert!(r3s[2].verify_received(0, msg2).is_ok());
}

#[test]
fn swapped_share_commitments_fail_downstream() {
    let sid = SessionId::random();
    let mut r1s = new_round1s(&sid, 3);
    // Party 0 swaps two of its share commitments before committing.  The sum
    // is unchanged, so the second round accepts; the shares it then sends no
    // longer match the commitments, which the recipient's decrypt-and-image
    // check catches.
    r1s[0].data.xs_public.swap(0, 1);
    let r2s = to_round2(r1s);
    let msg = r2s[0].to_send();
    assert!(r2s[1].verify_received(0, msg).is_ok());
    let bags = round2_exchange(&r2s);
    let r3s = to_round3(r2s, bags);
    let msg = packet_from_to(&r3s, 0, 1);
    assert_eq!(r3s[1].verify_received(0, msg).err(), Some(AuxError::ShareDecryptMismatch));
}

#[test]
fn encryption_of_wrong_scalar_is_rejected() {
    let r3s = honest_round3(3);
    let mut msg = packet_from_to(&r3s, 0, 1);
    // Replace the encrypted share with an encryption of a different scalar
    // under the correct recipient key.
    let recipient_pk = aux_gen::paillier::PublicKeyPaillier {
        modulus: r3s[1].data.paillier_pk.modulus.clone(),
    };
    msg.data2.paillier_enc_x = Ciphertext::new(&recipient_pk, &Scalar::random());
    assert_eq!(r3s[1].verify_received(0, msg).err(), Some(AuxError::ShareDecryptMismatch));
}

#[test]
fn fac_check_is_context_free() {
    // The FAC checker receives no statement and no auxiliary, so an
    // internally consistent proof for a different key is not caught by it.
    let r3s = honest_round3(3);
    let mut msg = packet_from_to(&r3s, 0, 1);
    let other = SecretKeyPaillier::random();
    let aux = aux_gen::auxiliary::make_aux3(&r3s[0].data.session_id, &r3s[0].rho, 0);
    msg.data2.fac_proof = aux_gen::sigma::FacProof::random(&other, &aux);
    assert!(r3s[1].verify_received(0, msg).is_ok());
}

#[test]
fn scalar_decoding_accepts_exactly_canonical_encodings() {
    // The group order, little-endian.
    let mut q_le = vec![
        0x41u8, 0x41, 0x36, 0xD0, 0x8C, 0x5E, 0xD2, 0xBF, 0x3B, 0xA0, 0x48, 0xAF, 0xE6, 0xDC,
        0xAE, 0xBA, 0xFE,
    ];
    q_le.extend(std::iter::repeat(0xFFu8).take(15));
    assert_eq!(q_le.len(), 32);
    // The order itself is not canonical; the order minus one is.
    assert!(Scalar::from_bytes(&q_le).is_none());
    let mut q_minus_1 = q_le.clone();
    q_minus_1[0] = 0x40;
    let s = Scalar::from_bytes(&q_minus_1).unwrap();
    assert_eq!(s.bytes, q_minus_1);
    assert!(Scalar::from_bytes(&vec![0u8; 32]).is_some());
    assert!(Scalar::from_bytes(&vec![0xFFu8; 32]).is_none());
    assert!(Scalar::from_bytes(&vec![0u8; 31]).is_none());
    // Reducing the order gives zero.
    assert_eq!(Scalar::reduce(&q_le).bytes, Scalar::zero().bytes);
}

#[test]
fn scalar_arithmetic_matches_known_values() {
    let one = Scalar::one();
    let two = one.add(&one);
    let three = two.add(&one);
    let six = three.add(&three);
    assert_eq!(two.mul(&three).bytes, six.bytes);
    assert_eq!(two.add(&two.neg()).bytes, Scalar::zero().bytes);
    let mut two_bytes = vec![0u8; 32];
    two_bytes[0] = 2;
    assert_eq!(two.bytes, two_bytes);
}

#[test]
fn ring_pedersen_power_laws() {
    let sk = SecretKeyPaillier::random();
    let pk = sk.public_key();
    let n2 = pk.n_squared();
    let r = pk.random_group_elem();
    let t = aux_gen::paillier::group_sqr(&r, &n2);
    let mut one_exp = vec![0u8; 32];
    one_exp[0] = 1;
    let mut two_exp = vec![0u8; 32];
    two_exp[0] = 2;
    // t^1 = t and t^2 = t*t in the group modulo the squared modulus.
    assert_eq!(aux_gen::paillier::group_pow(&t, &one_exp, &n2), t);
    assert_eq!(
        aux_gen::paillier::group_pow(&t, &two_exp, &n2),
        aux_gen::paillier::group_sqr(&t, &n2)
    );
}
