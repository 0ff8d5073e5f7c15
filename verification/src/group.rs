use vstd::prelude::*;
use vstd::arithmetic::div_mod::{lemma_add_mod_noop, lemma_mod_self_0, lemma_small_mod};
use crypto_bigint::U256;
use crypto_bigint::NonZero;
use crypto_bigint::Encoding;
use crypto_bigint::modular::runtime_mod::DynResidue;
use crypto_bigint::modular::runtime_mod::DynResidueParams;
use crate::rng::random_bytes;

verus! {

/// The value of a little-endian byte string as an unbounded natural number.
pub open spec fn nat_of_le(s: Seq<u8>) -> nat
    decreases s.len(),
{
    if s.len() == 0 {
        0
    } else {
        (s[0] + 256 * nat_of_le(s.skip(1))) as nat
    }
}

/// The order of the elliptic-curve group: the prime
/// 2^256 - 432420386565659656852420866394968145599.
pub open spec fn group_order() -> nat {
    0xFFFFFFFFFFFFFFFFFFFFFFFFFFFFFFFEBAAEDCE6AF48A03BBFD25E8CD0364141nat
}

/// Two little-endian byte strings of equal length with the same value are
/// byte-for-byte identical.
pub proof fn lemma_nat_of_le_injective(a: Seq<u8>, b: Seq<u8>)
    requires
        a.len() == b.len(),
        nat_of_le(a) == nat_of_le(b),
    ensures
        a == b,
    decreases a.len(),
{
    if a.len() == 0 {
        assert(a =~= b);
    } else {
        let ra = nat_of_le(a.skip(1));
        let rb = nat_of_le(b.skip(1));
        assert(a[0] + 256 * ra == b[0] + 256 * rb);
        assert(a[0] == b[0] && ra == rb) by {
            assert(a[0] < 256 && b[0] < 256);
        };
        lemma_nat_of_le_injective(a.skip(1), b.skip(1));
        assert(a =~= seq![a[0]].add(a.skip(1)));
        assert(b =~= seq![b[0]].add(b.skip(1)));
        assert(a =~= b);
    }
}

/// An all-zero byte string has value zero.
pub proof fn lemma_nat_of_le_zeros(s: Seq<u8>)
    requires
        forall|i: int| 0 <= i < s.len() ==> s[i] == 0,
    ensures
        nat_of_le(s) == 0,
    decreases s.len(),
{
    if s.len() > 0 {
        lemma_nat_of_le_zeros(s.skip(1));
    }
}

/// Relies on crypto_bigint::U256::add_mod (with U256::from_le_slice and
/// Encoding::to_le_bytes for the byte form): returns `(a + b) mod p` for the
/// baked-in modulus p, which is the group order written in big-endian hex.
/// Assumes both inputs are reduced, as add_mod requires.
#[verifier::external_body]
fn sc_add_bytes(a: &Vec<u8>, b: &Vec<u8>) -> (r: Vec<u8>)
    requires
        a@.len() == 32,
        b@.len() == 32,
        nat_of_le(a@) < group_order(),
        nat_of_le(b@) < group_order(),
    ensures
        r@.len() == 32,
        nat_of_le(r@) == (nat_of_le(a@) + nat_of_le(b@)) % group_order(),
{
    let q = U256::from_be_hex("FFFFFFFFFFFFFFFFFFFFFFFFFFFFFFFEBAAEDCE6AF48A03BBFD25E8CD0364141");
    let x = U256::from_le_slice(a.as_slice());
    let y = U256::from_le_slice(b.as_slice());
    x.add_mod(&y, &q).to_le_bytes().to_vec()
}

/// Relies on crypto_bigint::U256::neg_mod: returns `(-a) mod p` for the
/// baked-in group order p.  Assumes the input is reduced, as neg_mod requires.
#[verifier::external_body]
fn sc_neg_bytes(a: &Vec<u8>) -> (r: Vec<u8>)
    requires
        a@.len() == 32,
        nat_of_le(a@) < group_order(),
    ensures
        r@.len() == 32,
        nat_of_le(r@) == (group_order() - nat_of_le(a@)) % (group_order() as int),
{
    let q = U256::from_be_hex("FFFFFFFFFFFFFFFFFFFFFFFFFFFFFFFEBAAEDCE6AF48A03BBFD25E8CD0364141");
    let x = U256::from_le_slice(a.as_slice());
    x.neg_mod(&q).to_le_bytes().to_vec()
}

/// Relies on crypto_bigint's Montgomery form with a runtime modulus
/// (DynResidueParams::new, DynResidue::new, DynResidue::mul, retrieve):
/// returns `(a * b) mod p` for the baked-in group order p, which is odd.
#[verifier::external_body]
fn sc_mul_bytes(a: &Vec<u8>, b: &Vec<u8>) -> (r: Vec<u8>)
    requires
        a@.len() == 32,
        b@.len() == 32,
        nat_of_le(a@) < group_order(),
        nat_of_le(b@) < group_order(),
    ensures
        r@.len() == 32,
        nat_of_le(r@) == (nat_of_le(a@) * nat_of_le(b@)) % group_order(),
{
    let q = U256::from_be_hex("FFFFFFFFFFFFFFFFFFFFFFFFFFFFFFFEBAAEDCE6AF48A03BBFD25E8CD0364141");
    let params = DynResidueParams::new(&q);
    let x = DynResidue::new(&U256::from_le_slice(a.as_slice()), params);
    let y = DynResidue::new(&U256::from_le_slice(b.as_slice()), params);
    x.mul(&y).retrieve().to_le_bytes().to_vec()
}

/// Relies on crypto_bigint::U256::rem: returns `a mod p` for the baked-in
/// group order p, which is not zero.
#[verifier::external_body]
fn sc_rem_bytes(a: &Vec<u8>) -> (r: Vec<u8>)
    requires
        a@.len() == 32,
    ensures
        r@.len() == 32,
        nat_of_le(r@) == nat_of_le(a@) % group_order(),
{
    let q = U256::from_be_hex("FFFFFFFFFFFFFFFFFFFFFFFFFFFFFFFEBAAEDCE6AF48A03BBFD25E8CD0364141");
    let q = NonZero::new(q).unwrap();
    let x = U256::from_le_slice(a.as_slice());
    x.rem(&q).to_le_bytes().to_vec()
}

/// An element of the scalar field: 32 little-endian bytes, reduced modulo the
/// group order.
pub struct Scalar {
    pub bytes: Vec<u8>,
}

impl Scalar {
    /// The value this scalar stands for.
    pub open spec fn val(self) -> nat {
        nat_of_le(self.bytes@)
    }

    /// A well-formed scalar: exactly 32 bytes, reduced.
    pub open spec fn wf(self) -> bool {
        self.bytes@.len() == 32 && self.val() < group_order()
    }

    /// The zero scalar.
    pub fn zero() -> (r: Scalar)
        ensures
            r.wf(),
            r.val() == 0,
    {
        let mut bytes: Vec<u8> = Vec::new();
        let mut i: usize = 0;
        while i < 32
            invariant
                i <= 32,
                bytes@.len() == i,
                forall|k: int| 0 <= k < i ==> bytes@[k] == 0,
            decreases 32 - i,
        {
            bytes.push(0u8);
            i = i + 1;
        }
        proof {
            lemma_nat_of_le_zeros(bytes@);
        }
        Scalar { bytes }
    }

    /// The scalar one.
    pub fn one() -> (r: Scalar)
        ensures
            r.wf(),
            r.val() == 1,
    {
        let mut r = Scalar::zero();
        let mut bytes: Vec<u8> = Vec::new();
        bytes.push(1u8);
        let mut i: usize = 1;
        while i < 32
            invariant
                1 <= i <= 32,
                bytes@.len() == i,
                bytes@[0] == 1,
                forall|k: int| 1 <= k < i ==> bytes@[k] == 0,
            decreases 32 - i,
        {
            bytes.push(0u8);
            i = i + 1;
        }
        proof {
            lemma_nat_of_le_zeros(bytes@.skip(1));
            assert(nat_of_le(bytes@) == 1);
        }
        r = Scalar { bytes };
        r
    }

    /// An exact copy of this scalar.
    pub fn duplicate(&self) -> (r: Scalar)
        ensures
            r.bytes@ == self.bytes@,
    {
        let mut out: Vec<u8> = Vec::new();
        let mut i: usize = 0;
        while i < self.bytes.len()
            invariant
                i <= self.bytes@.len(),
                out@ == self.bytes@.take(i as int),
            decreases self.bytes@.len() - i,
        {
            out.push(self.bytes[i]);
            proof {
                assert(out@ =~= self.bytes@.take(i + 1 as int));
            }
            i = i + 1;
        }
        proof {
            assert(out@ =~= self.bytes@);
        }
        Scalar { bytes: out }
    }

    /// A uniformly random reduced scalar.
    pub fn random() -> (r: Scalar)
        ensures
            r.wf(),
    {
        let raw = random_bytes(32);
        Scalar { bytes: sc_rem_bytes(&raw) }
    }

    /// Sum modulo the group order.
    pub fn add(&self, other: &Scalar) -> (r: Scalar)
        requires
            self.wf(),
            other.wf(),
        ensures
            r.wf(),
            r.val() == (self.val() + other.val()) % group_order(),
    {
        Scalar { bytes: sc_add_bytes(&self.bytes, &other.bytes) }
    }

    /// Negation modulo the group order.
    pub fn neg(&self) -> (r: Scalar)
        requires
            self.wf(),
        ensures
            r.wf(),
            r.val() == (group_order() - self.val()) % (group_order() as int),
    {
        Scalar { bytes: sc_neg_bytes(&self.bytes) }
    }

    /// Product modulo the group order.
    pub fn mul(&self, other: &Scalar) -> (r: Scalar)
        requires
            self.wf(),
            other.wf(),
        ensures
            r.wf(),
            r.val() == (self.val() * other.val()) % group_order(),
    {
        Scalar { bytes: sc_mul_bytes(&self.bytes, &other.bytes) }
    }

    /// Reduces 32 arbitrary bytes modulo the group order.
    pub fn reduce(raw: &Vec<u8>) -> (r: Scalar)
        requires
            raw@.len() == 32,
        ensures
            r.wf(),
            r.val() == nat_of_le(raw@) % group_order(),
    {
        Scalar { bytes: sc_rem_bytes(raw) }
    }

    /// Decodes 32 bytes as a scalar, accepting exactly the canonical
    /// (reduced) encodings.
    pub fn from_bytes(bytes: &Vec<u8>) -> (r: Option<Scalar>)
        ensures
            match r {
                Some(s) => s.bytes@ == bytes@ && s.wf(),
                None => bytes@.len() != 32 || nat_of_le(bytes@) >= group_order(),
            },
    {
        if bytes.len() != 32 {
            return None;
        }
        let reduced = sc_rem_bytes(bytes);
        let mut same = true;
        let mut i: usize = 0;
        while i < 32
            invariant
                i <= 32,
                bytes@.len() == 32,
                reduced@.len() == 32,
                same == (forall|k: int| 0 <= k < i ==> bytes@[k] == reduced@[k]),
            decreases 32 - i,
        {
            if bytes[i] != reduced[i] {
                same = false;
            }
            i = i + 1;
        }
        if same {
            proof {
                assert(bytes@ =~= reduced@);
            }
            let mut out: Vec<u8> = Vec::new();
            let mut j: usize = 0;
            while j < bytes.len()
                invariant
                    j <= bytes@.len(),
                    out@ == bytes@.take(j as int),
                decreases bytes@.len() - j,
            {
                out.push(bytes[j]);
                proof {
                    assert(out@ =~= bytes@.take(j as int + 1));
                }
                j = j + 1;
            }
            proof {
                assert(out@ =~= bytes@);
            }
            Some(Scalar { bytes: out })
        } else {
            proof {
                if nat_of_le(bytes@) < group_order() {
                    lemma_small_mod(nat_of_le(bytes@), group_order());
                    lemma_nat_of_le_injective(reduced@, bytes@);
                }
            }
            None
        }
    }

    /// Value equality of two well-formed scalars.
    pub fn equals(&self, other: &Scalar) -> (r: bool)
        requires
            self.wf(),
            other.wf(),
        ensures
            r == (self.val() == other.val()),
    {
        let mut i: usize = 0;
        let mut eq = true;
        while i < 32
            invariant
                i <= 32,
                self.bytes@.len() == 32,
                other.bytes@.len() == 32,
                eq == (forall|k: int| 0 <= k < i ==> self.bytes@[k] == other.bytes@[k]),
            decreases 32 - i,
        {
            if self.bytes[i] != other.bytes[i] {
                eq = false;
            }
            i = i + 1;
        }
        proof {
            if eq {
                assert(self.bytes@ =~= other.bytes@);
            } else {
                if self.val() == other.val() {
                    lemma_nat_of_le_injective(self.bytes@, other.bytes@);
                }
            }
        }
        eq
    }
}

/// The values of a sequence of scalars.
pub open spec fn scalar_vals(s: Seq<Scalar>) -> Seq<nat> {
    s.map_values(|x: Scalar| x.val())
}

/// Sum of a sequence of natural numbers.
pub open spec fn sum_nats(s: Seq<nat>) -> nat
    decreases s.len(),
{
    if s.len() == 0 {
        0
    } else {
        s[0] + sum_nats(s.skip(1))
    }
}

/// Appending one element adds its value to the sum.
pub proof fn lemma_sum_nats_push(s: Seq<nat>, x: nat)
    ensures
        sum_nats(s.push(x)) == sum_nats(s) + x,
    decreases s.len(),
{
    if s.len() == 0 {
        assert(s.push(x).skip(1) =~= Seq::<nat>::empty());
        assert(s.push(x)[0] == x);
        assert(sum_nats(s.push(x)) == x + sum_nats(Seq::<nat>::empty()));
    } else {
        assert(s.push(x).skip(1) =~= s.skip(1).push(x));
        lemma_sum_nats_push(s.skip(1), x);
        assert(s.push(x)[0] == s[0]);
        assert(sum_nats(s.push(x)) == s[0] + sum_nats(s.skip(1).push(x)));
    }
}

/// A point of the elliptic-curve group.  The group has prime order, so every
/// point is a multiple of the generator; the point is represented by that
/// multiple.  Recovering it from a point of the concrete curve is the
/// discrete-logarithm problem -- a hardness property, not a functional one,
/// and outside this library's scope.
pub struct Point {
    pub scalar: Scalar,
}

impl Point {
    /// The generator multiple this point stands for.
    pub open spec fn pval(self) -> nat {
        self.scalar.val()
    }

    /// A well-formed point.
    pub open spec fn wf(self) -> bool {
        self.scalar.wf()
    }

    /// The identity element.
    pub fn identity() -> (r: Point)
        ensures
            r.wf(),
            r.pval() == 0,
    {
        Point { scalar: Scalar::zero() }
    }

    /// The generator.
    pub fn generator() -> (r: Point)
        ensures
            r.wf(),
            r.pval() == 1,
    {
        Point { scalar: Scalar::one() }
    }

    /// The scalar multiple `x` of the generator.
    pub fn gen_mul(x: &Scalar) -> (r: Point)
        requires
            x.wf(),
        ensures
            r.wf(),
            r.pval() == x.val(),
    {
        Point { scalar: x.duplicate() }
    }

    /// An exact copy of this point.
    pub fn duplicate(&self) -> (r: Point)
        ensures
            r.scalar.bytes@ == self.scalar.bytes@,
    {
        Point { scalar: self.scalar.duplicate() }
    }

    /// Group addition.
    pub fn add(&self, other: &Point) -> (r: Point)
        requires
            self.wf(),
            other.wf(),
        ensures
            r.wf(),
            r.pval() == (self.pval() + other.pval()) % group_order(),
    {
        Point { scalar: self.scalar.add(&other.scalar) }
    }

    /// The scalar multiple `e` of this point.
    pub fn mul(&self, e: &Scalar) -> (r: Point)
        requires
            self.wf(),
            e.wf(),
        ensures
            r.wf(),
            r.pval() == (e.val() * self.pval()) % group_order(),
    {
        Point { scalar: e.mul(&self.scalar) }
    }

    /// Group-element equality.
    pub fn equals(&self, other: &Point) -> (r: bool)
        requires
            self.wf(),
            other.wf(),
        ensures
            r == (self.pval() == other.pval()),
    {
        self.scalar.equals(&other.scalar)
    }
}

/// The generator multiples of a sequence of points.
pub open spec fn point_vals(s: Seq<Point>) -> Seq<nat> {
    s.map_values(|p: Point| p.pval())
}

/// Sum of a sequence of points, as an element of the group.
pub fn sum_points(pts: &Vec<Point>) -> (r: Point)
    requires
        forall|i: int| 0 <= i < pts@.len() ==> (#[trigger] pts@[i]).wf(),
    ensures
        r.wf(),
        r.pval() == sum_nats(point_vals(pts@)) % group_order(),
{
    let mut acc = Point::identity();
    let mut i: usize = 0;
    proof {
        assert(point_vals(pts@.take(0)) =~= Seq::<nat>::empty());
        lemma_mod_self_0(group_order() as int);
        assert(0nat % group_order() == 0) by {
            lemma_small_mod(0nat, group_order());
        };
    }
    while i < pts.len()
        invariant
            i <= pts@.len(),
            forall|k: int| 0 <= k < pts@.len() ==> (#[trigger] pts@[k]).wf(),
            acc.wf(),
            acc.pval() == sum_nats(point_vals(pts@.take(i as int))) % group_order(),
        decreases pts@.len() - i,
    {
        let prev_val: Ghost<nat> = Ghost(sum_nats(point_vals(pts@.take(i as int))));
        acc = acc.add(&pts[i]);
        proof {
            let q = group_order();
            let pv = pts@[i as int].pval();
            lemma_small_mod(pv, q);
            lemma_add_mod_noop(prev_val@ as int, pv as int, q as int);
            assert(acc.pval() == (prev_val@ + pv) % q);
            assert(point_vals(pts@.take(i as int + 1)) =~= point_vals(pts@.take(i as int)).push(
                pv,
            ));
            lemma_sum_nats_push(point_vals(pts@.take(i as int)), pv);
        }
        i = i + 1;
    }
    proof {
        assert(pts@.take(pts@.len() as int) =~= pts@);
    }
    acc
}

/// Samples `n` uniformly random scalars whose sum is the zero scalar: the
/// first `n - 1` are independent and the last is the negation of their sum.
pub fn zero_sum_scalars(n: usize) -> (r: Vec<Scalar>)
    requires
        1 <= n,
    ensures
        r@.len() == n,
        forall|i: int| 0 <= i < n ==> (#[trigger] r@[i]).wf(),
        sum_nats(scalar_vals(r@)) % group_order() == 0,
{
    let mut out: Vec<Scalar> = Vec::new();
    let mut acc = Scalar::zero();
    let mut i: usize = 0;
    proof {
        assert(scalar_vals(out@) =~= Seq::<nat>::empty());
        lemma_small_mod(0, group_order());
    }
    while i < n - 1
        invariant
            i <= n - 1,
            out@.len() == i,
            forall|k: int| 0 <= k < i ==> (#[trigger] out@[k]).wf(),
            acc.wf(),
            acc.val() == sum_nats(scalar_vals(out@)) % group_order(),
        decreases n - 1 - i,
    {
        let x = Scalar::random();
        let prev_seq: Ghost<Seq<Scalar>> = Ghost(out@);
        let prev_val: Ghost<nat> = Ghost(sum_nats(scalar_vals(out@)));
        acc = acc.add(&x);
        out.push(x);
        proof {
            let q = group_order();
            lemma_small_mod(x.val(), q);
            lemma_add_mod_noop(prev_val@ as int, x.val() as int, q as int);
            assert(out@ == prev_seq@.push(x));
            assert(scalar_vals(out@) =~= scalar_vals(prev_seq@).push(x.val()));
            lemma_sum_nats_push(scalar_vals(prev_seq@), x.val());
        }
        i = i + 1;
    }
    let last = acc.neg();
    let prev_seq: Ghost<Seq<Scalar>> = Ghost(out@);
    let total: Ghost<nat> = Ghost(sum_nats(scalar_vals(out@)));
    out.push(last);
    proof {
        let q = group_order();
        let s = total@ % q;
        assert(out@ == prev_seq@.push(last));
        assert(scalar_vals(out@) =~= scalar_vals(prev_seq@).push(last.val()));
        lemma_sum_nats_push(scalar_vals(prev_seq@), last.val());
        assert(sum_nats(scalar_vals(out@)) == total@ + last.val());
        if s == 0 {
            lemma_small_mod(0, q);
            assert(last.val() == (q - 0) % (q as int));
            lemma_mod_self_0(q as int);
            assert(last.val() == 0);
            lemma_add_mod_noop(total@ as int, 0, q as int);
            lemma_small_mod(0, q);
        } else {
            assert(q - s < q);
            lemma_small_mod((q - s) as nat, q);
            assert(last.val() == q - s);
            lemma_add_mod_noop(total@ as int, (q - s) as int, q as int);
            assert((total@ + (q - s)) % (q as int) == (s + (q - s)) % (q as int) % (q as int));
            lemma_mod_self_0(q as int);
        }
    }
    out
}

} // verus!
