use vstd::prelude::*;
use vstd::arithmetic::div_mod::{lemma_add_mod_noop, lemma_small_mod};
use crate::auxiliary::{
    col_vals, fd_transcript, hole_wf, peer_at, rho_views, round_wf, AuxData, AuxError, FullData,
    Round2, Round3, Round3Direct, SecretData,
};
use crate::bitvec::xor_seq;
use crate::group::{group_order, point_vals, scalar_vals, sum_nats, Scalar};
use crate::hashing::digest_of;
use crate::paillier::lemma_modulus_wf_facts;
use crate::params::{MODULUS_BYTES, SECURITY_PARAMETER};

verus! {

/// Sum of the rows' sums of a matrix of naturals.
pub open spec fn row_sums(rows: Seq<Seq<nat>>) -> Seq<nat> {
    rows.map_values(|r: Seq<nat>| sum_nats(r))
}

/// One column of a matrix of naturals.
pub open spec fn col_of(rows: Seq<Seq<nat>>, k: int) -> Seq<nat> {
    rows.map_values(|r: Seq<nat>| r[k])
}

/// The columns' sums of a matrix of naturals.
pub open spec fn col_sums(rows: Seq<Seq<nat>>, ncols: nat) -> Seq<nat> {
    Seq::new(ncols, |k: int| sum_nats(col_of(rows, k)))
}

/// A sequence of zeros sums to zero.
proof fn lemma_sum_zero(s: Seq<nat>)
    requires
        forall|i: int| 0 <= i < s.len() ==> s[i] == 0,
    ensures
        sum_nats(s) == 0,
    decreases s.len(),
{
    if s.len() > 0 {
        lemma_sum_zero(s.skip(1));
    }
}

/// Summing the pointwise sum of two equal-length sequences sums both.
proof fn lemma_sum_pointwise_add(a: Seq<nat>, b: Seq<nat>)
    requires
        a.len() == b.len(),
    ensures
        sum_nats(Seq::new(a.len(), |i: int| (a[i] + b[i]) as nat)) == sum_nats(a) + sum_nats(b),
    decreases a.len(),
{
    let c = Seq::new(a.len(), |i: int| (a[i] + b[i]) as nat);
    if a.len() > 0 {
        lemma_sum_pointwise_add(a.skip(1), b.skip(1));
        assert(c.skip(1) =~= Seq::new(a.skip(1).len(), |i: int| (a.skip(1)[i] + b.skip(1)[i]) as nat));
        assert(c[0] == a[0] + b[0]);
    } else {
        assert(c =~= Seq::<nat>::empty());
    }
}

/// The sum of the row sums equals the sum of the column sums, for a
/// rectangular matrix.
proof fn lemma_matrix_sum_swap(rows: Seq<Seq<nat>>, ncols: nat)
    requires
        forall|r: int| 0 <= r < rows.len() ==> (#[trigger] rows[r]).len() == ncols,
    ensures
        sum_nats(row_sums(rows)) == sum_nats(col_sums(rows, ncols)),
    decreases rows.len(),
{
    if rows.len() == 0 {
        assert(row_sums(rows) =~= Seq::<nat>::empty());
        assert forall|k: int| 0 <= k < ncols implies (#[trigger] col_sums(rows, ncols)[k]) == 0 by {
            assert(col_of(rows, k) =~= Seq::<nat>::empty());
        }
        lemma_sum_zero(col_sums(rows, ncols));
    } else {
        let rest = rows.skip(1);
        lemma_matrix_sum_swap(rest, ncols);
        // Row side: peel off the first row.
        assert(row_sums(rows)[0] == sum_nats(rows[0]));
        assert(row_sums(rows).skip(1) =~= row_sums(rest));
        assert(sum_nats(row_sums(rows)) == sum_nats(rows[0]) + sum_nats(row_sums(rest)));
        // Column side: each column starts with the first row's entry.
        assert forall|k: int| 0 <= k < ncols implies (#[trigger] col_sums(rows, ncols)[k]) == (
        rows[0][k] + col_sums(rest, ncols)[k]) as nat by {
            assert(col_of(rows, k)[0] == rows[0][k]);
            assert(col_of(rows, k).skip(1) =~= col_of(rest, k));
        }
        assert(col_sums(rows, ncols) =~= Seq::new(
            ncols,
            |k: int| (rows[0][k] + col_sums(rest, ncols)[k]) as nat,
        ));
        let first = Seq::new(ncols, |k: int| rows[0][k]);
        assert(first =~= rows[0]);
        assert(Seq::new(ncols, |k: int| (rows[0][k] + col_sums(rest, ncols)[k]) as nat) =~= Seq::new(
            first.len(),
            |k: int| (first[k] + col_sums(rest, ncols)[k]) as nat,
        ));
        lemma_sum_pointwise_add(first, col_sums(rest, ncols));
    }
}

/// Reducing each element modulo `q` does not change the sum modulo `q`.
proof fn lemma_sum_mod_reduce(s: Seq<nat>, q: nat)
    requires
        q > 0,
    ensures
        sum_nats(s.map_values(|x: nat| x % q)) % q == sum_nats(s) % q,
    decreases s.len(),
{
    let m = s.map_values(|x: nat| x % q);
    if s.len() == 0 {
        assert(m =~= Seq::<nat>::empty());
    } else {
        lemma_sum_mod_reduce(s.skip(1), q);
        assert(m.skip(1) =~= s.skip(1).map_values(|x: nat| x % q));
        assert(m[0] == s[0] % q);
        let rest = sum_nats(s.skip(1));
        let mrest = sum_nats(m.skip(1));
        assert(sum_nats(m) == s[0] % q + mrest);
        assert(sum_nats(s) == s[0] + rest);
        assert(mrest % q == rest % q);
        vstd::arithmetic::div_mod::lemma_mod_twice(s[0] as int, q as int);
        lemma_add_mod_noop((s[0] % q) as int, mrest as int, q as int);
        lemma_add_mod_noop(s[0] as int, rest as int, q as int);
        assert(((s[0] % q) % q + mrest % q) % q == (s[0] % q + mrest) % q);
        assert((s[0] % q + rest % q) % q == (s[0] + rest) % q);
    }
}

/// A sum of elements that each vanish modulo `q` vanishes modulo `q`.
proof fn lemma_sum_all_zero_mod(s: Seq<nat>, q: nat)
    requires
        q > 0,
        forall|i: int| 0 <= i < s.len() ==> (#[trigger] s[i]) % q == 0,
    ensures
        sum_nats(s) % q == 0,
    decreases s.len(),
{
    if s.len() == 0 {
        lemma_small_mod(0nat, q);
    } else {
        lemma_sum_all_zero_mod(s.skip(1), q);
        lemma_add_mod_noop(s[0] as int, sum_nats(s.skip(1)) as int, q as int);
        lemma_small_mod(0nat, q);
    }
}

/// The share-commitment matrix of a family of bundles: one row per party,
/// each row the generator multiples of that party's `xs_public`.
pub open spec fn share_matrix(datas: Seq<FullData>) -> Seq<Seq<nat>> {
    datas.map_values(|d: FullData| point_vals(d.xs_public@))
}

/// Public-key preservation: when every party's revealed share commitments
/// sum to the identity -- which the second round checks -- the combined
/// masks published in the terminal output also sum to the identity, so
/// refreshing leaves the group public key unchanged.
pub proof fn lemma_public_key_preservation(datas: Seq<FullData>, masks: Seq<nat>)
    requires
        masks.len() == datas.len(),
        forall|j: int|
            0 <= j < datas.len() ==> (#[trigger] datas[j]).xs_public@.len() == datas.len(),
        forall|j: int|
            0 <= j < datas.len() ==> sum_nats(point_vals((#[trigger] datas[j]).xs_public@))
                % group_order() == 0,
        forall|k: int|
            0 <= k < masks.len() ==> (#[trigger] masks[k]) == sum_nats(col_vals(datas, k))
                % group_order(),
    ensures
        sum_nats(masks) % group_order() == 0,
{
    let q = group_order();
    let n = datas.len() as nat;
    let rows = share_matrix(datas);
    assert forall|r: int| 0 <= r < rows.len() implies (#[trigger] rows[r]).len() == n by {
        assert(rows[r] == point_vals(datas[r].xs_public@));
    }
    lemma_matrix_sum_swap(rows, n);
    assert forall|k: int| 0 <= k < n implies (#[trigger] col_sums(rows, n)[k]) == sum_nats(
        col_vals(datas, k),
    ) by {
        assert(col_of(rows, k) =~= col_vals(datas, k));
    }
    assert(masks =~= col_sums(rows, n).map_values(|x: nat| x % q));
    lemma_sum_mod_reduce(col_sums(rows, n), q);
    assert forall|j: int| 0 <= j < rows.len() implies (#[trigger] row_sums(rows)[j]) % q == 0 by {
        assert(row_sums(rows)[j] == sum_nats(point_vals(datas[j].xs_public@)));
    }
    lemma_sum_all_zero_mod(row_sums(rows), q);
}

/// Mask consistency: the generator image of a party's terminal mask equals
/// the published combined mask at that party's index.  The hypotheses are
/// what the third round's verification guarantees of every accepted share
/// and what the finalizations state of the two sums.
pub proof fn lemma_mask_consistency(
    r3: Round3,
    payloads: Seq<Option<Scalar>>,
    x_mask_val: nat,
    mask_val: nat,
)
    requires
        r3.wf(),
        hole_wf(payloads, r3.data.party_idx as int, r3.n()),
        forall|j: int|
            0 <= j < r3.n() && j != r3.data.party_idx as int ==> (#[trigger] payloads[j]).unwrap().val()
                == r3.datas@[j].xs_public@[r3.data.party_idx as int].pval(),
        x_mask_val == sum_nats(r3.incoming_vals(payloads)) % group_order(),
        mask_val == sum_nats(col_vals(r3.datas@, r3.data.party_idx as int)) % group_order(),
    ensures
        x_mask_val == mask_val,
{
    let idx = r3.data.party_idx as int;
    let incoming = r3.incoming_vals(payloads);
    let col = col_vals(r3.datas@, idx);
    assert forall|j: int| 0 <= j < r3.n() implies (#[trigger] incoming[j]) == col[j] by {
        if j == idx {
            assert(r3.datas@[idx]@.xs_public[idx] == r3.datas@[idx].xs_public@[idx].scalar.bytes@);
            assert(r3.data@.xs_public[idx] == r3.data.xs_public@[idx].scalar.bytes@);
            assert(r3.datas@[idx].xs_public@[idx].pval() == r3.data.xs_public@[idx].pval());
            assert(r3.data.xs_public@[idx].pval() == r3.secret_data.xs_secret@[idx].val());
        }
    }
    assert(incoming =~= col);
}

/// Session-nonce agreement: two parties that accepted byte-identical
/// bundle families compute byte-identical session nonces.
pub proof fn lemma_rho_agreement(a: Round3, b: Round3)
    requires
        a.datas@.len() == b.datas@.len(),
        forall|j: int| 0 <= j < a.datas@.len() ==> (#[trigger] a.datas@[j])@ == b.datas@[j]@,
        a.rho.bytes@ == xor_seq(rho_views(a.datas@)),
        b.rho.bytes@ == xor_seq(rho_views(b.datas@)),
    ensures
        a.rho.bytes@ == b.rho.bytes@,
{
    assert forall|j: int| 0 <= j < a.datas@.len() implies (#[trigger] rho_views(a.datas@)[j])
        == rho_views(b.datas@)[j] by {
        assert(a.datas@[j]@.rho_bits == b.datas@[j]@.rho_bits);
    }
    assert(rho_views(a.datas@) =~= rho_views(b.datas@));
}

/// Completeness of the second round: an honest party's revealed bundle,
/// matching the commitment the receiver stored, passes all four checks.
pub proof fn lemma_honest_round2_accepts(
    receiver: Round2,
    sender_data: FullData,
    sender_secret: SecretData,
    from: int,
)
    requires
        receiver.wf(),
        0 <= from < receiver.n(),
        from != receiver.data.party_idx as int,
        round_wf(sender_data, sender_secret),
        sender_data.xs_public@.len() == receiver.n(),
        sender_data.party_idx as int == from,
        sender_data.session_id.bytes@ == receiver.data.session_id.bytes@,
        receiver.hashes@[from].unwrap()@ == digest_of(fd_transcript(sender_data@)),
    ensures
        receiver.round2_verdict(from, sender_data) == Ok::<FullData, AuxError>(sender_data),
{
    let q = group_order();
    lemma_modulus_wf_facts(sender_data.paillier_pk.modulus@);
    assert(MODULUS_BYTES == SECURITY_PARAMETER);
    let pvals = point_vals(sender_data.xs_public@);
    let svals = scalar_vals(sender_secret.xs_secret@);
    assert forall|i: int| 0 <= i < pvals.len() implies (#[trigger] pvals[i]) == svals[i] by {
        assert(sender_data.xs_public@[i].pval() == sender_secret.xs_secret@[i].val());
    }
    assert(pvals =~= svals);
    assert(sum_nats(pvals) % q == 0);
}

/// Completeness of the third round: an honest sender's packet for this
/// receiver, built by the sender's own sending step, passes all checks of a
/// receiver that accepted the same bundle family and computed the same
/// session nonce, and yields exactly the sender's share for the receiver.
pub proof fn lemma_honest_round3_accepts(
    receiver: Round3,
    sender: Round3,
    k: int,
    entry: (usize, Round3Direct),
)
    requires
        receiver.wf(),
        sender.wf(),
        receiver.n() == sender.n(),
        sender.data.party_idx != receiver.data.party_idx,
        0 <= k < sender.n() - 1,
        peer_at(sender.data.party_idx as int, k) == receiver.data.party_idx as int,
        sender.send_entry_ok(k, entry),
        forall|j: int| 0 <= j < receiver.n() ==> (#[trigger] receiver.datas@[j])@
            == sender.datas@[j]@,
        receiver.rho.bytes@ == sender.rho.bytes@,
        receiver.data.session_id.bytes@ == sender.data.session_id.bytes@,
    ensures
        receiver.round3_verdict(sender.data.party_idx as int, entry.1.data2) == Ok::<
            Scalar,
            AuxError,
        >(entry.1.data2.paillier_enc_x.payload),
{
    let from = sender.data.party_idx as int;
    let ridx = receiver.data.party_idx as int;
    let d2 = entry.1.data2;
    // The two parties build the same Fiat-Shamir auxiliary for this sender.
    assert(receiver.aux3(from as nat) == sender.aux3(sender.data.party_idx as nat));
    // The sender's own bundle as the receiver stored it.
    assert(receiver.datas@[from]@ == sender.datas@[from]@);
    assert(sender.datas@[from]@ == sender.data@);
    let stored = receiver.datas@[from];
    // Key binding: the share was encrypted under the receiver's key.
    assert(sender.datas@[ridx]@ == receiver.datas@[ridx]@);
    assert(receiver.datas@[ridx]@ == receiver.data@);
    assert(d2.paillier_enc_x.key_modulus@ == sender.datas@[ridx].paillier_pk.modulus@);
    assert(sender.datas@[ridx]@.paillier_modulus == receiver.data@.paillier_modulus);
    assert(d2.paillier_enc_x.key_modulus@ == receiver.secret_data.paillier_sk.modulus@);
    // Image check: the carried scalar is the sender's share for the
    // receiver, whose image is the committed point at the receiver's index.
    assert(stored@.xs_public == sender.data@.xs_public);
    assert(stored@.xs_public[ridx] == stored.xs_public@[ridx].scalar.bytes@);
    assert(sender.data@.xs_public[ridx] == sender.data.xs_public@[ridx].scalar.bytes@);
    assert(stored.xs_public@[ridx].pval() == sender.data.xs_public@[ridx].pval());
    assert(sender.data.xs_public@[ridx].pval() == sender.secret_data.xs_secret@[ridx].val());
    assert(d2.paillier_enc_x.payload.val() == stored.xs_public@[ridx].pval());
    // MOD proof: same modulus, same auxiliary.
    assert(stored@.paillier_modulus == sender.data@.paillier_modulus);
    assert(d2.mod_proof.digest@ == digest_of(
        crate::sigma::mod_tr(stored.paillier_pk.modulus@, receiver.aux3(from as nat)),
    ));
    // SCH proofs: the committed values the receiver stored are the sender's.
    assert(stored@.sch_commitment_y == sender.data@.sch_commitment_y);
    assert(stored@.y_public == sender.data@.y_public);
    assert(stored@.sch_commitments_x == sender.data@.sch_commitments_x);
    assert(stored@.sch_commitments_x[ridx]
        == stored.sch_commitments_x@[ridx].point.scalar.bytes@);
    assert(sender.data@.sch_commitments_x[ridx]
        == sender.data.sch_commitments_x@[ridx].point.scalar.bytes@);
    assert(crate::sigma::sch_verifies(
        d2.sch_proof_y.z.val(),
        stored.sch_commitment_y.point.scalar.bytes@,
        stored.y_public.scalar.bytes@,
        receiver.aux3(from as nat),
    ));
    assert(crate::sigma::sch_verifies(
        d2.sch_proof_x.z.val(),
        stored.sch_commitments_x@[ridx].point.scalar.bytes@,
        stored.xs_public@[ridx].scalar.bytes@,
        receiver.aux3(from as nat),
    ));
}

/// Output agreement: two terminal outputs assembled from byte-identical
/// bundle families carry identical public vectors -- the combined masks,
/// the `y` points, the Paillier keys and the ring-Pedersen pairs.
pub proof fn lemma_aux_agreement(
    datas_a: Seq<FullData>,
    datas_b: Seq<FullData>,
    out_a: AuxData,
    out_b: AuxData,
)
    requires
        datas_a.len() == datas_b.len(),
        forall|j: int| 0 <= j < datas_a.len() ==> (#[trigger] datas_a[j])@ == datas_b[j]@,
        forall|j: int|
            0 <= j < datas_a.len() ==> (#[trigger] datas_a[j]).xs_public@.len() == datas_a.len(),
        forall|j: int|
            0 <= j < datas_b.len() ==> (#[trigger] datas_b[j]).xs_public@.len() == datas_b.len(),
        out_a.xs_masks_public@.len() == datas_a.len(),
        out_b.xs_masks_public@.len() == datas_b.len(),
        forall|k: int|
            0 <= k < datas_a.len() ==> (#[trigger] out_a.xs_masks_public@[k]).pval() == sum_nats(
                col_vals(datas_a, k),
            ) % group_order(),
        forall|k: int|
            0 <= k < datas_b.len() ==> (#[trigger] out_b.xs_masks_public@[k]).pval() == sum_nats(
                col_vals(datas_b, k),
            ) % group_order(),
        out_a.ys_public@.len() == datas_a.len(),
        out_b.ys_public@.len() == datas_b.len(),
        forall|j: int|
            0 <= j < datas_a.len() ==> (#[trigger] out_a.ys_public@[j]).scalar.bytes@
                == datas_a[j].y_public.scalar.bytes@,
        forall|j: int|
            0 <= j < datas_b.len() ==> (#[trigger] out_b.ys_public@[j]).scalar.bytes@
                == datas_b[j].y_public.scalar.bytes@,
        out_a.paillier_pks@.len() == datas_a.len(),
        out_b.paillier_pks@.len() == datas_b.len(),
        forall|j: int|
            0 <= j < datas_a.len() ==> (#[trigger] out_a.paillier_pks@[j]).modulus@
                == datas_a[j].paillier_pk.modulus@,
        forall|j: int|
            0 <= j < datas_b.len() ==> (#[trigger] out_b.paillier_pks@[j]).modulus@
                == datas_b[j].paillier_pk.modulus@,
    ensures
        forall|k: int|
            0 <= k < datas_a.len() ==> (#[trigger] out_a.xs_masks_public@[k]).pval()
                == out_b.xs_masks_public@[k].pval(),
        forall|j: int|
            0 <= j < datas_a.len() ==> (#[trigger] out_a.ys_public@[j]).scalar.bytes@
                == out_b.ys_public@[j].scalar.bytes@,
        forall|j: int|
            0 <= j < datas_a.len() ==> (#[trigger] out_a.paillier_pks@[j]).modulus@
                == out_b.paillier_pks@[j].modulus@,
{
    assert forall|k: int| 0 <= k < datas_a.len() implies col_vals(datas_a, k) =~= col_vals(
        datas_b,
        k,
    ) by {
        assert forall|j: int| 0 <= j < datas_a.len() implies (#[trigger] col_vals(datas_a, k)[j])
            == col_vals(datas_b, k)[j] by {
            assert(datas_a[j]@.xs_public[k] == datas_a[j].xs_public@[k].scalar.bytes@);
            assert(datas_b[j]@.xs_public[k] == datas_b[j].xs_public@[k].scalar.bytes@);
        }
    }
    assert forall|j: int| 0 <= j < datas_a.len() implies (#[trigger] datas_a[j]).y_public.scalar.bytes@
        == datas_b[j].y_public.scalar.bytes@ by {
        assert(datas_a[j]@.y_public == datas_a[j].y_public.scalar.bytes@);
    }
    assert forall|j: int| 0 <= j < datas_a.len() implies (#[trigger] datas_a[j]).paillier_pk.modulus@
        == datas_b[j].paillier_pk.modulus@ by {
        assert(datas_a[j]@.paillier_modulus == datas_a[j].paillier_pk.modulus@);
    }
}

} // verus!

