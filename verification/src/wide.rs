//! Whole numbers of any size, held as limbs of 64 bits, the lowest first.
//! The sums of a weighted mean are exact in them, however many the
//! observations.

use vstd::prelude::*;

verus! {

/// What one limb counts up to: two to the 64.
pub const BASE: u128 = 0x1_0000_0000_0000_0000;

/// `BASE` to the `k`.
pub open spec fn radix(k: nat) -> int
    decreases k,
{
    if k == 0 {
        1
    } else {
        BASE as int * radix((k - 1) as nat)
    }
}

/// The number that the limbs stand for.
pub open spec fn value(limbs: Seq<u64>) -> int
    decreases limbs.len(),
{
    if limbs.len() == 0 {
        0
    } else {
        value(limbs.drop_last()) + limbs.last() * radix((limbs.len() - 1) as nat)
    }
}

/// A power of the base is at least one.
pub proof fn lemma_radix_positive(k: nat)
    ensures
        radix(k) >= 1,
    decreases k,
{
    if k > 0 {
        lemma_radix_positive((k - 1) as nat);
        let r = radix((k - 1) as nat);
        assert(BASE as int * r >= 1) by (nonlinear_arith)
            requires
                r >= 1,
        ;
    }
}

/// The limbs stand for a number below the base to their count.
pub proof fn lemma_value_bound(limbs: Seq<u64>)
    ensures
        0 <= value(limbs) < radix(limbs.len()),
    decreases limbs.len(),
{
    if limbs.len() > 0 {
        lemma_value_bound(limbs.drop_last());
        let r = radix((limbs.len() - 1) as nat);
        let x = limbs.last() as int;
        lemma_radix_positive((limbs.len() - 1) as nat);
        assert(0 <= x * r && x * r + r <= BASE as int * r) by (nonlinear_arith)
            requires
                0 <= x < BASE as int,
                r >= 1,
        ;
    }
}

/// One more limb on top adds it times the power of its place.
pub proof fn lemma_value_push(limbs: Seq<u64>, x: u64)
    ensures
        value(limbs.push(x)) == value(limbs) + x * radix(limbs.len()),
{
    assert(limbs.push(x).drop_last() =~= limbs);
}

/// The number of the lowest `k + 1` limbs, from that of the lowest `k`.
pub proof fn lemma_value_take(limbs: Seq<u64>, k: int)
    requires
        0 <= k < limbs.len(),
    ensures
        value(limbs.take(k + 1)) == value(limbs.take(k)) + limbs[k] * radix(k as nat),
{
    assert(limbs.take(k + 1).drop_last() =~= limbs.take(k));
}

/// The number one.
pub fn one() -> (r: Vec<u64>)
    ensures
        value(r@) == 1,
        r@.len() == 1,
{
    let mut r: Vec<u64> = Vec::new();
    r.push(1);
    proof {
        assert(r@.drop_last() =~= Seq::<u64>::empty());
        assert(value(r@.drop_last()) == 0);
        assert(radix(0) == 1);
    }
    r
}

/// The number zero.
pub fn zero() -> (r: Vec<u64>)
    ensures
        value(r@) == 0,
        r@.len() == 1,
{
    let mut r: Vec<u64> = Vec::new();
    r.push(0);
    proof {
        assert(r@.drop_last() =~= Seq::<u64>::empty());
        assert(value(r@.drop_last()) == 0);
    }
    r
}

/// The same number in `len` limbs.
pub fn padded(a: &Vec<u64>, len: usize) -> (r: Vec<u64>)
    requires
        a@.len() <= len,
    ensures
        value(r@) == value(a@),
        r@.len() == len,
{
    let mut r = a.clone();
    while r.len() < len
        invariant
            r@.len() <= len,
            value(r@) == value(a@),
        decreases len - r@.len(),
    {
        proof {
            lemma_value_push(r@, 0);
        }
        r.push(0);
    }
    r
}

/// The product of a number and one limb.
pub fn mul_small(a: &Vec<u64>, m: u64) -> (r: Vec<u64>)
    ensures
        value(r@) == value(a@) * m,
        r@.len() == a@.len() + 1,
{
    let mut r: Vec<u64> = Vec::new();
    let mut carry: u128 = 0;
    let mut k: usize = 0;
    proof {
        assert(a@.take(0) =~= Seq::<u64>::empty());
        assert(value(a@.take(0)) * m == 0) by (nonlinear_arith)
            requires
                value(a@.take(0)) == 0,
        ;
    }
    while k < a.len()
        invariant
            0 <= k <= a@.len(),
            r@.len() == k,
            carry < BASE,
            value(r@) + carry * radix(k as nat) == value(a@.take(k as int)) * m,
        decreases a@.len() - k,
    {
        let x = a[k];
        assert(x as u128 * m as u128 + carry <= 0xffff_ffff_ffff_ffff_ffff_ffff_ffff_ffff) by (nonlinear_arith)
            requires
                x <= 0xffff_ffff_ffff_ffff,
                m <= 0xffff_ffff_ffff_ffff,
                carry <= 0xffff_ffff_ffff_ffff,
        ;
        let wide: u128 = x as u128 * m as u128 + carry;
        let low: u64 = (wide % BASE) as u64;
        let high: u128 = wide / BASE;
        proof {
            lemma_value_push(r@, low);
            lemma_value_take(a@, k as int);
            let rk = radix(k as nat);
            let before = value(a@.take(k as int));
            assert(radix((k + 1) as nat) == BASE as int * rk);
            assert(wide == high * BASE + low);
            assert(value(r@) + low * rk + high * (BASE as int * rk) == (before + x * rk) * m)
                by (nonlinear_arith)
                requires
                    value(r@) + carry * rk == before * m,
                    x * m + carry == high * BASE + low,
            ;
        }
        r.push(low);
        carry = high;
        k += 1;
    }
    proof {
        assert(a@.take(a@.len() as int) =~= a@);
        lemma_value_push(r@, carry as u64);
    }
    r.push(carry as u64);
    r
}

/// The sum of two numbers.
pub fn sum(a: &Vec<u64>, b: &Vec<u64>) -> (r: Vec<u64>)
    ensures
        value(r@) == value(a@) + value(b@),
{
    let len: usize = if a.len() > b.len() {
        a.len()
    } else {
        b.len()
    };
    sum_aligned(&padded(a, len), &padded(b, len))
}

/// The sum of two numbers of as many limbs.
fn sum_aligned(a: &Vec<u64>, b: &Vec<u64>) -> (r: Vec<u64>)
    requires
        a@.len() == b@.len(),
    ensures
        value(r@) == value(a@) + value(b@),
        r@.len() == a@.len() + 1,
{
    let mut r: Vec<u64> = Vec::new();
    let mut carry: u128 = 0;
    let mut k: usize = 0;
    proof {
        assert(a@.take(0) =~= Seq::<u64>::empty());
        assert(b@.take(0) =~= Seq::<u64>::empty());
    }
    while k < a.len()
        invariant
            0 <= k <= a@.len(),
            a@.len() == b@.len(),
            r@.len() == k,
            carry <= 1,
            value(r@) + carry * radix(k as nat) == value(a@.take(k as int)) + value(
                b@.take(k as int),
            ),
        decreases a@.len() - k,
    {
        let wide: u128 = a[k] as u128 + b[k] as u128 + carry;
        let low: u64 = (wide % BASE) as u64;
        let high: u128 = wide / BASE;
        proof {
            lemma_value_push(r@, low);
            lemma_value_take(a@, k as int);
            lemma_value_take(b@, k as int);
            let rk = radix(k as nat);
            assert(radix((k + 1) as nat) == BASE as int * rk);
            assert(wide == high * BASE + low);
            assert(low * rk + high * (BASE as int * rk) == a@[k as int] * rk + b@[k as int] * rk
                + carry * rk) by (nonlinear_arith)
                requires
                    a@[k as int] + b@[k as int] + carry == high * BASE + low,
            ;
        }
        r.push(low);
        carry = high;
        k += 1;
    }
    proof {
        assert(a@.take(a@.len() as int) =~= a@);
        assert(b@.take(b@.len() as int) =~= b@);
        lemma_value_push(r@, carry as u64);
    }
    r.push(carry as u64);
    r
}

/// Of two numbers of as many limbs, the one with the lower top limb is the
/// lower; with equal top limbs the rest decides.
pub proof fn lemma_top_limb_decides(a: Seq<u64>, b: Seq<u64>)
    requires
        a.len() == b.len(),
        a.len() > 0,
    ensures
        a.last() < b.last() ==> value(a) < value(b),
        a.last() == b.last() ==> (value(a) <= value(b) <==> value(a.drop_last()) <= value(
            b.drop_last(),
        )),
{
    lemma_value_bound(a.drop_last());
    lemma_value_bound(b.drop_last());
    let r = radix((a.len() - 1) as nat);
    let x = a.last() as int;
    let y = b.last() as int;
    if x < y {
        assert(x * r + r <= y * r) by (nonlinear_arith)
            requires
                x < y,
                r >= 0,
        ;
    }
}

/// Whether the first number is at most the second.
pub fn le(a: &Vec<u64>, b: &Vec<u64>) -> (r: bool)
    ensures
        r == (value(a@) <= value(b@)),
{
    let len: usize = if a.len() > b.len() {
        a.len()
    } else {
        b.len()
    };
    le_aligned(&padded(a, len), &padded(b, len))
}

/// Whether the first number is at most the second; both of as many limbs.
fn le_aligned(a: &Vec<u64>, b: &Vec<u64>) -> (r: bool)
    requires
        a@.len() == b@.len(),
    ensures
        r == (value(a@) <= value(b@)),
{
    let mut k: usize = a.len();
    proof {
        assert(a@.take(k as int) =~= a@);
        assert(b@.take(k as int) =~= b@);
    }
    while k > 0
        invariant
            0 <= k <= a@.len(),
            a@.len() == b@.len(),
            (value(a@) <= value(b@)) <==> (value(a@.take(k as int)) <= value(b@.take(k as int))),
        decreases k,
    {
        proof {
            lemma_top_limb_decides(a@.take(k as int), b@.take(k as int));
            assert(a@.take(k as int).drop_last() =~= a@.take(k - 1));
            assert(b@.take(k as int).drop_last() =~= b@.take(k - 1));
            lemma_top_limb_decides(b@.take(k as int), a@.take(k as int));
        }
        if a[k - 1] < b[k - 1] {
            return true;
        }
        if a[k - 1] > b[k - 1] {
            return false;
        }
        k -= 1;
    }
    true
}

/// The quotient of `n` by `d`, rounded down, where it fits one limb. There
/// is none where `d` is zero or the quotient needs more than one limb.
pub fn quotient(n: &Vec<u64>, d: &Vec<u64>) -> (r: Option<u64>)
    ensures
        r == if value(d@) > 0 && value(n@) < BASE * value(d@) {
            Some((value(n@) / value(d@)) as u64)
        } else {
            None
        },
        r matches Some(q) ==> q == value(n@) / value(d@),
{
    let ghost num = value(n@);
    let ghost den = value(d@);
    proof {
        lemma_value_bound(n@);
        lemma_value_bound(d@);
    }
    if le(d, &zero()) {
        return None;
    }
    let whole = sum(&mul_small(d, 0xffff_ffff_ffff_ffff), d);
    proof {
        assert(den * 0xffff_ffff_ffff_ffff + den == BASE * den) by (nonlinear_arith);
    }
    if le(&whole, n) {
        return None;
    }
    let mut q: u64 = 0;
    let mut span: u128 = BASE;
    proof {
        assert(0 * den == 0);
    }
    while span > 1
        invariant
            1 <= span <= BASE,
            q + span <= BASE,
            num == value(n@),
            den == value(d@),
            den > 0,
            q * den <= num < (q + span) * den,
        decreases span,
    {
        let half: u128 = span / 2;
        let next: u64 = (q as u128 + half) as u64;
        if le(&mul_small(d, next), n) {
            q = next;
            span = span - half;
        } else {
            span = half;
        }
    }
    proof {
        let rest = num - q * den;
        assert(num < q * den + den) by (nonlinear_arith)
            requires
                num < (q + 1) * den,
        ;
        assert(num == q * den + rest);
        vstd::arithmetic::div_mod::lemma_fundamental_div_mod_converse(num, den, q as int, rest);
    }
    Some(q)
}

} // verus!
