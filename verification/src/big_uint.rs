//! Unsigned integers without an upper bound, for token amounts that
//! arithmetic can take past any fixed width.
use vstd::prelude::*;

verus! {

/// The base of a limb: 2^32.
pub open spec fn limb_base() -> nat {
    0x1_0000_0000
}

/// `limb_base()` to the power `n`.
pub open spec fn base_pow(n: nat) -> nat
    decreases n,
{
    if n == 0 {
        1
    } else {
        limb_base() * base_pow((n - 1) as nat)
    }
}

/// The number that little-endian limbs `s` stand for.
pub open spec fn limbs_value(s: Seq<u32>) -> nat
    decreases s.len(),
{
    if s.len() == 0 {
        0
    } else {
        limbs_value(s.drop_last()) + (s.last() as nat) * base_pow((s.len() - 1) as nat)
    }
}

proof fn lemma_base_pow_pos(n: nat)
    ensures
        base_pow(n) >= 1,
    decreases n,
{
    if n > 0 {
        lemma_base_pow_pos((n - 1) as nat);
        assert(limb_base() * base_pow((n - 1) as nat) >= 1) by (nonlinear_arith)
            requires
                base_pow((n - 1) as nat) >= 1,
                limb_base() == 0x1_0000_0000,
        ;
    }
}

/// Putting a limb in front shifts the rest up by one limb.
proof fn lemma_value_prepend(x: u32, s: Seq<u32>)
    ensures
        limbs_value(seq![x] + s) == x + limb_base() * limbs_value(s),
    decreases s.len(),
{
    let t = seq![x] + s;
    if s.len() == 0 {
        assert(t.drop_last() =~= Seq::<u32>::empty());
        assert(t.last() == x);
        assert(limbs_value(Seq::<u32>::empty()) == 0);
        assert(base_pow(0) == 1);
        assert(limbs_value(t) == limbs_value(t.drop_last()) + (t.last() as nat) * base_pow(0));
    } else {
        let n = s.len();
        assert(t.drop_last() =~= seq![x] + s.drop_last());
        assert(t.last() == s.last());
        lemma_value_prepend(x, s.drop_last());
        let a = limbs_value(s.drop_last());
        let l = s.last() as int;
        let p = base_pow((n - 1) as nat) as int;
        assert(base_pow(n as nat) == limb_base() * p);
        assert(limbs_value(t) == limbs_value(t.drop_last()) + (t.last() as nat) * base_pow(n as nat));
        assert(limbs_value(s) == a + l * p);
        assert(limb_base() * a + l * (limb_base() * p) == limb_base() * (a + l * p)) by (nonlinear_arith);
    }
}

/// An unsigned integer without an upper bound.
#[derive(Clone, Debug)]
pub struct BigUint {
    limbs: Vec<u32>,
}

impl View for BigUint {
    type V = nat;

    closed spec fn view(&self) -> nat {
        limbs_value(self.limbs@)
    }
}

impl BigUint {
    /// The number `x`.
    pub fn from_u128(x: u128) -> (r: BigUint)
        ensures
            r@ == x,
    {
        let mut limbs: Vec<u32> = Vec::new();
        let mut rest: u128 = x;
        let mut i: usize = 0;
        assert(base_pow(0) == 1);
        assert(limbs_value(limbs@) == 0);
        while i < 4
            invariant
                i <= 4,
                limbs@.len() == i,
                limbs_value(limbs@) + rest * base_pow(i as nat) == x,
            decreases 4 - i,
        {
            let limb = (rest % 0x1_0000_0000) as u32;
            let ghost old_limbs = limbs@;
            let ghost old_rest = rest;
            limbs.push(limb);
            rest = rest / 0x1_0000_0000;
            proof {
                assert(limbs@.drop_last() =~= old_limbs);
                let p = base_pow(i as nat) as int;
                assert(base_pow((i + 1) as nat) == limb_base() * p);
                assert(limbs_value(limbs@) == limbs_value(old_limbs) + (limb as nat) * base_pow(i as nat));
                assert(limb * p + rest * (limb_base() * p) == old_rest * p) by (nonlinear_arith)
                    requires
                        limb == old_rest % 0x1_0000_0000,
                        rest == old_rest / 0x1_0000_0000,
                        limb_base() == 0x1_0000_0000,
                ;
            }
            i = i + 1;
        }
        proof {
            assert(base_pow(4) == 0x1_0000_0000_0000_0000_0000_0000_0000_0000nat) by {
                reveal_with_fuel(base_pow, 5);
            }
            assert(rest == 0) by (nonlinear_arith)
                requires
                    limbs_value(limbs@) + rest * 0x1_0000_0000_0000_0000_0000_0000_0000_0000nat == x,
                    x <= u128::MAX,
            ;
        }
        BigUint { limbs }
    }

    /// The number times `m`.
    pub fn mul_u64(&self, m: u64) -> (r: BigUint)
        ensures
            r@ == self@ * m,
    {
        let a = &self.limbs;
        let mut out: Vec<u32> = Vec::new();
        let mut carry: u128 = 0;
        let mut i: usize = 0;
        assert(a@.subrange(0, 0) =~= Seq::<u32>::empty());
        assert(limbs_value(out@) == 0);
        assert(limbs_value(a@.subrange(0, 0)) == 0);
        while i < a.len()
            invariant
                i <= a@.len(),
                out@.len() == i,
                carry <= m,
                limbs_value(out@) + carry * base_pow(i as nat) == m * limbs_value(a@.subrange(0, i as int)),
            decreases a.len() - i,
        {
            let ghost old_out = out@;
            let ghost old_carry = carry;
            assert((a[i as int] as u128) * (m as u128) + carry <= 0x1_0000_0000 * (m as u128)) by (nonlinear_arith)
                requires
                    a[i as int] < 0x1_0000_0000,
                    carry <= m,
            ;
            let t: u128 = (a[i] as u128) * (m as u128) + carry;
            let limb = (t % 0x1_0000_0000) as u32;
            carry = t / 0x1_0000_0000;
            out.push(limb);
            proof {
                assert(out@.drop_last() =~= old_out);
                assert(a@.subrange(0, i + 1).drop_last() =~= a@.subrange(0, i as int));
                let p = base_pow(i as nat) as int;
                assert(limbs_value(out@) == limbs_value(old_out) + limb * p);
                assert(limbs_value(a@.subrange(0, i + 1)) == limbs_value(a@.subrange(0, i as int)) + a[i as int] * p);
                assert(base_pow((i + 1) as nat) == limb_base() * p);
                assert(carry <= m) by (nonlinear_arith)
                    requires
                        t <= 0x1_0000_0000 * (m as u128),
                        carry == t / 0x1_0000_0000,
                ;
                assert(limb * p + carry * (limb_base() * p) == a[i as int] * m * p + old_carry * p) by (nonlinear_arith)
                    requires
                        limb == t % 0x1_0000_0000,
                        carry == t / 0x1_0000_0000,
                        t == a[i as int] * m + old_carry,
                        limb_base() == 0x1_0000_0000,
                ;
                assert(m * (limbs_value(a@.subrange(0, i as int)) + a[i as int] * p) == m
                    * limbs_value(a@.subrange(0, i as int)) + a[i as int] * m * p) by (nonlinear_arith);
            }
            i = i + 1;
        }
        let n = a.len();
        let low = (carry % 0x1_0000_0000) as u32;
        let high = (carry / 0x1_0000_0000) as u32;
        let ghost before = out@;
        out.push(low);
        let ghost mid = out@;
        out.push(high);
        proof {
            assert(a@.subrange(0, n as int) =~= a@);
            assert(mid.drop_last() =~= before);
            assert(out@.drop_last() =~= mid);
            let p = base_pow(n as nat) as int;
            assert(base_pow((n + 1) as nat) == limb_base() * p);
            assert(limbs_value(mid) == limbs_value(before) + low * p);
            assert(limbs_value(out@) == limbs_value(mid) + high * (limb_base() * p));
            let v = limbs_value(a@) as int;
            assert(m * v == v * m) by (nonlinear_arith);
            assert(low * p + high * (limb_base() * p) == carry * p) by (nonlinear_arith)
                requires
                    low == carry % 0x1_0000_0000,
                    high == carry / 0x1_0000_0000,
                    limb_base() == 0x1_0000_0000,
            ;
        }
        BigUint { limbs: out }
    }

    /// The number divided by `d`, rounded down.
    pub fn div_u32(&self, d: u32) -> (r: BigUint)
        requires
            d > 0,
        ensures
            r@ == self@ / (d as nat),
    {
        let a = &self.limbs;
        let n = a.len();
        let mut q: Vec<u32> = Vec::new();
        let mut k: usize = 0;
        while k < n
            invariant
                k <= n,
                n == a@.len(),
                q@.len() == k,
                forall|j: int| 0 <= j < k ==> q@[j] == 0,
            decreases n - k,
        {
            q.push(0);
            k = k + 1;
        }
        let mut rem: u64 = 0;
        let mut i: usize = n;
        proof {
            assert(a@.subrange(n as int, n as int) =~= Seq::<u32>::empty());
            assert(q@.subrange(n as int, n as int) =~= Seq::<u32>::empty());
            assert(limbs_value(Seq::<u32>::empty()) == 0);
        }
        while i > 0
            invariant
                i <= n,
                n == a@.len(),
                q@.len() == n,
                rem < d,
                limbs_value(a@.subrange(i as int, n as int)) == d * limbs_value(q@.subrange(i as int, n as int))
                    + rem,
            decreases i,
        {
            let ghost old_q = q@;
            let ghost old_rem = rem;
            assert(rem * 0x1_0000_0000 + a[(i - 1) as int] < (d as u64) * 0x1_0000_0000) by (nonlinear_arith)
                requires
                    rem < d,
                    a[(i - 1) as int] < 0x1_0000_0000,
            ;
            let t: u64 = rem * 0x1_0000_0000 + a[i - 1] as u64;
            assert(t / (d as u64) < 0x1_0000_0000) by (nonlinear_arith)
                requires
                    t < (d as u64) * 0x1_0000_0000,
                    d > 0,
            ;
            let qi = (t / (d as u64)) as u32;
            rem = t % (d as u64);
            q.set(i - 1, qi);
            proof {
                let sa = a@.subrange(i as int, n as int);
                let sq = old_q.subrange(i as int, n as int);
                assert(a@.subrange(i - 1, n as int) =~= seq![a[(i - 1) as int]] + sa);
                assert(q@.subrange(i - 1, n as int) =~= seq![qi] + sq);
                assert(q@.subrange(i as int, n as int) =~= sq);
                lemma_value_prepend(a[(i - 1) as int], sa);
                lemma_value_prepend(qi, sq);
                let va = limbs_value(sa) as int;
                let vq = limbs_value(sq) as int;
                assert(a[(i - 1) as int] + limb_base() * va == d * (qi + limb_base() * vq) + rem) by (nonlinear_arith)
                    requires
                        va == d * vq + old_rem,
                        t == old_rem * 0x1_0000_0000 + a[(i - 1) as int],
                        qi == t / (d as u64),
                        rem == t % (d as u64),
                        d > 0,
                        limb_base() == 0x1_0000_0000,
                ;
            }
            i = i - 1;
        }
        proof {
            assert(a@.subrange(0, n as int) =~= a@);
            assert(q@.subrange(0, n as int) =~= q@);
            let v = limbs_value(a@) as int;
            let w = limbs_value(q@) as int;
            assert(v / (d as int) == w) by (nonlinear_arith)
                requires
                    v == d * w + rem,
                    0 <= rem < d,
                    w >= 0,
            ;
        }
        BigUint { limbs: q }
    }

    /// A copy of the number.
    pub fn duplicate(&self) -> (r: BigUint)
        ensures
            r@ == self@,
    {
        BigUint { limbs: crate::common::copy_vec(&self.limbs) }
    }

    /// The limbs, least significant first, each worth 2^32 times the one before.
    pub fn limbs(&self) -> (r: Vec<u32>)
        ensures
            limbs_value(r@) == self@,
    {
        crate::common::copy_vec(&self.limbs)
    }
}

} // verus!
