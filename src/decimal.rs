use vstd::arithmetic::power2::{lemma2_to64, lemma2_to64_rest, lemma_pow2_adds, lemma_pow2_unfold, pow2};
use vstd::prelude::*;

use crate::parse::{all_digits, digits_value, is_digit, pow10};

verus! {

/// The value of little-endian decimal digits (least significant first).
pub open spec fn le_value(s: Seq<u8>) -> nat
    decreases s.len(),
{
    if s.len() == 0 {
        0
    } else {
        s[0] as nat + 10 * le_value(s.drop_first())
    }
}

/// Every entry is a decimal digit value (0 to 9).
pub open spec fn small_digits(s: Seq<u8>) -> bool {
    forall|i: int| 0 <= i < s.len() ==> #[trigger] s[i] < 10
}

/// The least decimal value that `str::parse::<f64>` reads as infinity: halfway between
/// `f64::MAX` and `2^1024`, where rounding to even goes up.
pub open spec fn f64_overflow_threshold() -> nat {
    (pow2(1024) - pow2(970)) as nat
}

/// `digits * 10^scale` (seconds) reaches the f64 overflow threshold.
pub open spec fn reaches_f64_overflow(digits: Seq<u8>, scale: int) -> bool {
    if scale >= 0 {
        digits_value(digits) * pow10(scale as nat) >= f64_overflow_threshold()
    } else {
        digits_value(digits) >= f64_overflow_threshold() * pow10((-scale) as nat)
    }
}

proof fn lemma_pow10_add(a: nat, b: nat)
    ensures
        pow10(a + b) == pow10(a) * pow10(b),
    decreases a,
{
    if a > 0 {
        lemma_pow10_add((a - 1) as nat, b);
        assert(pow10(a + b) == 10 * pow10((a - 1 + b) as nat));
        assert(pow10(a) == 10 * pow10((a - 1) as nat));
        assert(10 * (pow10((a - 1) as nat) * pow10(b)) == (10 * pow10((a - 1) as nat)) * pow10(b))
            by (nonlinear_arith);
    } else {
        assert(pow10(0) == 1);
        assert(a + b == b);
        assert(1 * pow10(b) == pow10(b));
    }
}

proof fn lemma_pow10_pos(n: nat)
    ensures
        pow10(n) >= 1,
    decreases n,
{
    if n > 0 {
        lemma_pow10_pos((n - 1) as nat);
    }
}

proof fn lemma_pow10_monotone(a: nat, b: nat)
    requires
        a <= b,
    ensures
        pow10(a) <= pow10(b),
    decreases b,
{
    if a < b {
        lemma_pow10_monotone(a, (b - 1) as nat);
        lemma_pow10_pos((b - 1) as nat);
    }
}

/// `10^n >= 2^(3n)`.
proof fn lemma_pow10_over_pow2(n: nat)
    ensures
        pow10(n) >= pow2(3 * n),
    decreases n,
{
    if n == 0 {
        lemma2_to64();
    } else {
        lemma_pow10_over_pow2((n - 1) as nat);
        lemma2_to64();
        lemma_pow2_adds(3, (3 * (n - 1)) as nat);
        assert(3 * n == 3 + 3 * (n - 1));
        assert(pow2(3 * n) == 8 * pow2((3 * (n - 1)) as nat));
    }
}

proof fn lemma_le_push(s: Seq<u8>, x: u8)
    ensures
        le_value(s.push(x)) == le_value(s) + x * pow10(s.len()),
    decreases s.len(),
{
    if s.len() > 0 {
        assert(s.push(x).drop_first() =~= s.drop_first().push(x));
        lemma_le_push(s.drop_first(), x);
        let p = pow10((s.len() - 1) as nat);
        assert(s.push(x)[0] == s[0]);
        assert(pow10(s.len()) == 10 * p);
        assert(le_value(s.push(x)) == s[0] + 10 * le_value(s.drop_first().push(x)));
        assert(le_value(s.drop_first().push(x)) == le_value(s.drop_first()) + x * p);
        assert(le_value(s) == s[0] + 10 * le_value(s.drop_first()));
        assert(le_value(s.push(x)) == s[0] + 10 * (le_value(s.drop_first()) + x * p));
        assert(s[0] + 10 * (le_value(s.drop_first()) + x * p) == s[0] + 10 * le_value(s.drop_first())
            + x * (10 * p)) by (nonlinear_arith);
        assert(10 * (le_value(s.drop_first()) + x * p) == 10 * le_value(s.drop_first()) + x * (10
            * p)) by (nonlinear_arith);
    } else {
        assert(s.push(x).drop_first() =~= Seq::<u8>::empty());
        assert(le_value(s.push(x).drop_first()) == 0);
        assert(le_value(s) == 0);
        assert(s.push(x)[0] == x);
        assert(pow10(0) == 1);
        assert(x * 1 == x);
    }
}

proof fn lemma_le_bound(s: Seq<u8>)
    requires
        small_digits(s),
    ensures
        le_value(s) < pow10(s.len()),
    decreases s.len(),
{
    if s.len() > 0 {
        lemma_le_bound(s.drop_first());
        assert(small_digits(s.drop_first()));
    }
}

proof fn lemma_le_split(s: Seq<u8>, i: int)
    requires
        0 <= i <= s.len(),
    ensures
        le_value(s) == le_value(s.subrange(0, i)) + pow10(i as nat) * le_value(
            s.subrange(i, s.len() as int),
        ),
    decreases i,
{
    if i == 0 {
        assert(s.subrange(0, 0) =~= Seq::<u8>::empty());
        assert(s.subrange(0, s.len() as int) =~= s);
        assert(pow10(0) == 1);
        assert(1 * le_value(s) == le_value(s));
    } else {
        let t = s.drop_first();
        lemma_le_split(t, i - 1);
        assert(s.subrange(0, i).drop_first() =~= t.subrange(0, i - 1));
        assert(s.subrange(i, s.len() as int) =~= t.subrange(i - 1, t.len() as int));
        let a = le_value(t.subrange(0, i - 1));
        let b = le_value(t.subrange(i - 1, t.len() as int));
        let p = pow10((i - 1) as nat);
        assert(pow10(i as nat) == 10 * p);
        assert(s.subrange(0, i)[0] == s[0]);
        assert(le_value(s.subrange(0, i)) == s[0] + 10 * a);
        assert(10 * (a + p * b) == 10 * a + (10 * p) * b) by (nonlinear_arith);
    }
}

/// Of two little-endian numbers of one length, the one with the larger digit at the
/// highest position where they differ is the larger.
proof fn lemma_le_compare(a: Seq<u8>, b: Seq<u8>, i: int)
    requires
        a.len() == b.len(),
        small_digits(a),
        small_digits(b),
        0 <= i < a.len(),
        a[i] > b[i],
        forall|j: int| i < j < a.len() ==> a[j] == b[j],
    ensures
        le_value(a) > le_value(b),
{
    let n = a.len() as int;
    lemma_le_split(a, i);
    lemma_le_split(b, i);
    let ha = a.subrange(i, n);
    let hb = b.subrange(i, n);
    assert(ha.drop_first() =~= hb.drop_first());
    lemma_le_bound(b.subrange(0, i));
    assert(small_digits(b.subrange(0, i)));
    let p = pow10(i as nat);
    assert(le_value(ha) >= le_value(hb) + 1);
    assert(p * le_value(ha) >= p * le_value(hb) + p) by (nonlinear_arith)
        requires
            le_value(ha) >= le_value(hb) + 1,
            p >= 0,
    ;
}

/// Little-endian digits of `dv(d) * 10^shift`: `shift` zeros, then `d` reversed.
pub fn to_little_endian(d: &Vec<u8>, shift: usize) -> (r: Vec<u8>)
    requires
        all_digits(d@),
    ensures
        le_value(r@) == digits_value(d@) * pow10(shift as nat),
        small_digits(r@),
        r@.len() == shift + d@.len(),
{
    let mut r: Vec<u8> = Vec::new();
    let mut i: usize = 0;
    while i < shift
        invariant
            i <= shift,
            r@.len() == i,
            le_value(r@) == 0,
            small_digits(r@),
        decreases shift - i,
    {
        proof {
            lemma_le_push(r@, 0);
        }
        r.push(0);
        i = i + 1;
    }
    let n = d.len();
    let mut j: usize = n;
    proof {
        assert(d@.subrange(n as int, n as int) =~= Seq::<u8>::empty());
        lemma_pow10_pos(shift as nat);
    }
    while j > 0
        invariant
            j <= n == d@.len(),
            all_digits(d@),
            r@.len() == shift + (n - j),
            small_digits(r@),
            le_value(r@) == digits_value(d@.subrange(j as int, n as int)) * pow10(shift as nat),
        decreases j,
    {
        let x = d[j - 1];
        proof {
            assert(is_digit(d@[j - 1]));
            lemma_le_push(r@, (x - 48) as u8);
            let tail = d@.subrange(j as int, n as int);
            let longer = d@.subrange(j - 1, n as int);
            lemma_prepend_digit(tail, x);
            assert(longer =~= seq![x] + tail);
            lemma_pow10_add(shift as nat, (n - j) as nat);
            let ps = pow10(shift as nat);
            let pt = pow10((n - j) as nat);
            assert((digits_value(tail) + (x - 48) * pt) * ps == digits_value(tail) * ps + (x - 48)
                * (ps * pt)) by (nonlinear_arith);
        }
        r.push(x - 48);
        j = j - 1;
    }
    proof {
        assert(d@.subrange(0, n as int) =~= d@);
    }
    r
}

proof fn lemma_prepend_digit(s: Seq<u8>, x: u8)
    requires
        is_digit(x),
    ensures
        digits_value(seq![x] + s) == digits_value(s) + (x - 48) * pow10(s.len()),
    decreases s.len(),
{
    if s.len() > 0 {
        assert((seq![x] + s).drop_last() =~= seq![x] + s.drop_last());
        lemma_prepend_digit(s.drop_last(), x);
        let p = pow10((s.len() - 1) as nat);
        assert((seq![x] + s).last() == s.last());
        assert(pow10(s.len()) == 10 * p);
        assert(digits_value(seq![x] + s) == digits_value(seq![x] + s.drop_last()) * 10 + (s.last()
            - 48) as nat);
        assert(digits_value(s) == digits_value(s.drop_last()) * 10 + (s.last() - 48) as nat);
        let c = digits_value(s.drop_last());
        let l = (s.last() - 48) as nat;
        assert(digits_value(seq![x] + s.drop_last()) == c + (x - 48) * p);
        assert((c + (x - 48) * p) * 10 + l == c * 10 + l + (x - 48) * (10 * p)) by (nonlinear_arith);
        assert((digits_value(s.drop_last()) + (x - 48) * p) * 10 == digits_value(s.drop_last()) * 10
            + (x - 48) * (10 * p)) by (nonlinear_arith);
    } else {
        assert(seq![x] + s =~= seq![x]);
        assert(seq![x].drop_last() =~= Seq::<u8>::empty());
        assert(seq![x].last() == x);
        assert(digits_value(seq![x].drop_last()) == 0);
        assert(pow10(0) == 1);
        assert(digits_value(seq![x] + s) == (x - 48) as nat);
        assert(digits_value(s) == 0);
        assert((x - 48) * 1 == x - 48);
    }
}

/// `a * k` in little-endian digits.
fn mul_small(a: &Vec<u8>, k: u64) -> (r: Vec<u8>)
    requires
        small_digits(a@),
    ensures
        le_value(r@) == le_value(a@) * k,
        small_digits(r@),
{
    let mut r: Vec<u8> = Vec::new();
    let mut carry: u128 = 0;
    let mut i: usize = 0;
    proof {
        assert(a@.subrange(0, 0) =~= Seq::<u8>::empty());
        assert(pow10(0) == 1);
        assert(le_value(Seq::<u8>::empty()) == 0);
        assert(le_value(r@) == 0);
        assert(0 * k == 0);
    }
    while i < a.len()
        invariant
            i <= a@.len(),
            small_digits(a@),
            r@.len() == i,
            small_digits(r@),
            carry <= k,
            le_value(r@) + carry * pow10(i as nat) == le_value(a@.subrange(0, i as int)) * k,
        decreases a@.len() - i,
    {
        let ai = a[i];
        proof {
            assert(ai < 10);
            assert((ai as int) * (k as int) <= 9 * (k as int)) by (nonlinear_arith)
                requires
                    ai < 10,
                    k >= 0,
            ;
        }
        let t: u128 = (ai as u128) * (k as u128) + carry;
        let digit: u8 = (t % 10) as u8;
        let next: u128 = t / 10;
        proof {
            assert(ai < 10);
            assert(t <= 10 * (k as int)) by (nonlinear_arith)
                requires
                    t == ai * k + carry,
                    ai < 10,
                    carry <= k,
            ;
            let p = pow10(i as nat);
            assert(a@.subrange(0, i + 1) =~= a@.subrange(0, i as int).push(ai));
            lemma_le_push(a@.subrange(0, i as int), ai);
            lemma_le_push(r@, digit);
            assert(pow10((i + 1) as nat) == 10 * p);
            assert(t == 10 * next + digit);
            assert(digit * p + next * (10 * p) == t * p) by (nonlinear_arith)
                requires
                    t == 10 * next + digit,
            ;
            assert(t * p == ai * k * p + carry * p) by (nonlinear_arith)
                requires
                    t == ai * k + carry,
            ;
            assert((le_value(a@.subrange(0, i as int)) + ai * p) * k == le_value(
                a@.subrange(0, i as int),
            ) * k + ai * k * p) by (nonlinear_arith);
        }
        r.push(digit);
        carry = next;
        i = i + 1;
    }
    proof {
        assert(a@.subrange(0, a@.len() as int) =~= a@);
    }
    while carry > 0
        invariant
            small_digits(r@),
            le_value(r@) + carry * pow10(r@.len()) == le_value(a@) * k,
        decreases carry,
    {
        let digit: u8 = (carry % 10) as u8;
        let next: u128 = carry / 10;
        proof {
            let p = pow10(r@.len());
            lemma_le_push(r@, digit);
            assert(pow10((r@.len() + 1) as nat) == 10 * p);
            assert(digit * p + next * (10 * p) == carry * p) by (nonlinear_arith)
                requires
                    carry == 10 * next + digit,
            ;
        }
        r.push(digit);
        carry = next;
    }
    proof {
        assert(0 * pow10(r@.len()) == 0);
    }
    r
}

/// `2^n` in little-endian digits.
fn pow2_digits(n: u64) -> (r: Vec<u8>)
    ensures
        le_value(r@) == pow2(n as nat),
        small_digits(r@),
{
    let mut r: Vec<u8> = Vec::new();
    proof {
        lemma_le_push(r@, 1);
        assert(pow10(0) == 1);
        lemma2_to64();
    }
    r.push(1);
    let mut i: u64 = 0;
    while i < n
        invariant
            i <= n,
            le_value(r@) == pow2(i as nat),
            small_digits(r@),
        decreases n - i,
    {
        r = mul_small(&r, 2);
        proof {
            lemma_pow2_unfold((i + 1) as nat);
        }
        i = i + 1;
    }
    r
}

/// `f64_overflow_threshold()` in little-endian digits: `2^970 * (2^54 - 1)`.
fn threshold_digits() -> (r: Vec<u8>)
    ensures
        le_value(r@) == f64_overflow_threshold(),
        small_digits(r@),
{
    let a = pow2_digits(970);
    let r = mul_small(&a, 18014398509481983);
    proof {
        lemma2_to64_rest();
        lemma_pow2_adds(970, 54);
        assert(pow2(54) == 18014398509481984);
        let p = pow2(970);
        assert(p * 18014398509481983 == p * 18014398509481984 - p) by (nonlinear_arith);
    }
    r
}

/// `a` with zeros added at the top up to length `n`: the same value.
fn padded(a: &Vec<u8>, n: usize) -> (r: Vec<u8>)
    requires
        small_digits(a@),
        a@.len() <= n,
    ensures
        le_value(r@) == le_value(a@),
        small_digits(r@),
        r@.len() == n,
{
    let mut r: Vec<u8> = a.clone();
    proof {
        assert(r@ =~= a@);
    }
    while r.len() < n
        invariant
            r@.len() <= n,
            small_digits(r@),
            le_value(r@) == le_value(a@),
        decreases n - r@.len(),
    {
        proof {
            lemma_le_push(r@, 0);
        }
        r.push(0);
    }
    r
}

/// Whether `le_value(a) >= le_value(b)`.
fn at_least(a: &Vec<u8>, b: &Vec<u8>) -> (r: bool)
    requires
        small_digits(a@),
        small_digits(b@),
    ensures
        r == (le_value(a@) >= le_value(b@)),
{
    let n: usize = if a.len() >= b.len() { a.len() } else { b.len() };
    let x = padded(a, n);
    let y = padded(b, n);
    let mut j: usize = n;
    while j > 0
        invariant
            j <= n == x@.len() == y@.len(),
            small_digits(x@),
            small_digits(y@),
            le_value(x@) == le_value(a@),
            le_value(y@) == le_value(b@),
            forall|i: int| j <= i < n ==> x@[i] == y@[i],
        decreases j,
    {
        let xd = x[j - 1];
        let yd = y[j - 1];
        if xd != yd {
            proof {
                if xd > yd {
                    lemma_le_compare(x@, y@, j - 1);
                } else {
                    lemma_le_compare(y@, x@, j - 1);
                }
            }
            return xd > yd;
        }
        j = j - 1;
    }
    proof {
        assert(x@ =~= y@);
    }
    true
}

/// `a * 10^k` in little-endian digits.
fn shifted_up(a: &Vec<u8>, k: usize) -> (r: Vec<u8>)
    requires
        small_digits(a@),
    ensures
        le_value(r@) == le_value(a@) * pow10(k as nat),
        small_digits(r@),
{
    let mut r: Vec<u8> = Vec::new();
    let mut i: usize = 0;
    while i < k
        invariant
            i <= k,
            r@.len() == i,
            le_value(r@) == 0,
            small_digits(r@),
        decreases k - i,
    {
        proof {
            lemma_le_push(r@, 0);
        }
        r.push(0);
        i = i + 1;
    }
    let mut j: usize = 0;
    proof {
        assert(a@.subrange(0, 0) =~= Seq::<u8>::empty());
    }
    while j < a.len()
        invariant
            j <= a@.len(),
            small_digits(a@),
            small_digits(r@),
            r@.len() == k + j,
            le_value(r@) == le_value(a@.subrange(0, j as int)) * pow10(k as nat),
        decreases a@.len() - j,
    {
        let x = a[j];
        proof {
            assert(a@.subrange(0, j + 1) =~= a@.subrange(0, j as int).push(x));
            lemma_le_push(a@.subrange(0, j as int), x);
            lemma_le_push(r@, x);
            lemma_pow10_add(k as nat, j as nat);
            let pk = pow10(k as nat);
            let pj = pow10(j as nat);
            assert((le_value(a@.subrange(0, j as int)) + x * pj) * pk == le_value(
                a@.subrange(0, j as int),
            ) * pk + x * (pk * pj)) by (nonlinear_arith);
        }
        r.push(x);
        j = j + 1;
    }
    proof {
        assert(a@.subrange(0, a@.len() as int) =~= a@);
    }
    r
}

/// Whether the decimal `d * 10^scale` (seconds) reaches the point where
/// `str::parse::<f64>` reads infinity (see `reaches_f64_overflow`).
pub fn reaches_overflow(d: &Vec<u8>, scale: i128) -> (r: bool)
    requires
        all_digits(d@),
        scale > i128::MIN,
    ensures
        r == reaches_f64_overflow(d@, scale as int),
{
    let dl = to_little_endian(d, 0);
    proof {
        assert(pow10(0) == 1);
        lemma_pow2_lt();
    }
    let t = threshold_digits();
    if scale >= 0 {
        if scale >= 342 {
            let mut one: Vec<u8> = Vec::new();
            proof {
                lemma_le_push(one@, 1);
            }
            one.push(1);
            let nonzero = at_least(&dl, &one);
            proof {
                let v = digits_value(d@);
                let ps = pow10(scale as nat);
                lemma_pow10_monotone(342, scale as nat);
                lemma_pow10_over_pow2(342);
                lemma_pow2_strictly_increases_local();
                if v >= 1 {
                    assert(v * ps >= ps) by (nonlinear_arith)
                        requires
                            v >= 1,
                            ps >= 0,
                    ;
                } else {
                    assert(v * ps == 0) by (nonlinear_arith)
                        requires
                            v == 0,
                    ;
                }
            }
            nonzero
        } else {
            let x = to_little_endian(d, scale as usize);
            at_least(&x, &t)
        }
    } else {
        let k: i128 = -scale;
        if k > d.len() as i128 {
            proof {
                let v = digits_value(d@);
                lemma_digits_bound(d@);
                lemma_pow10_monotone(d@.len(), k as nat);
                let pk = pow10(k as nat);
                let th = f64_overflow_threshold();
                assert(th * pk >= pk) by (nonlinear_arith)
                    requires
                        th >= 1,
                        pk >= 0,
                ;
            }
            false
        } else {
            let tk = shifted_up(&t, k as usize);
            at_least(&dl, &tk)
        }
    }
}

proof fn lemma_pow2_lt()
    ensures
        pow2(970) < pow2(1024),
        f64_overflow_threshold() >= 1,
        f64_overflow_threshold() < pow2(1026),
{
    vstd::arithmetic::power2::lemma_pow2_strictly_increases(970, 1024);
    vstd::arithmetic::power2::lemma_pow2_strictly_increases(1024, 1026);
    vstd::arithmetic::power2::lemma_pow2_pos(970);
    lemma_pow2_adds(970, 54);
    lemma2_to64_rest();
    assert(pow2(54) == 18014398509481984);
    let p = pow2(970);
    assert(p * 18014398509481984 - p >= 1) by (nonlinear_arith)
        requires
            p >= 1,
    ;
}

proof fn lemma_pow2_strictly_increases_local()
    ensures
        pow2(3 * 342) == pow2(1026),
{
}

/// A string of digits is worth less than `10` to its length.
proof fn lemma_digits_bound(s: Seq<u8>)
    requires
        all_digits(s),
    ensures
        digits_value(s) < pow10(s.len()),
    decreases s.len(),
{
    if s.len() > 0 {
        assert(all_digits(s.drop_last()));
        lemma_digits_bound(s.drop_last());
        assert(is_digit(s.last()));
        assert(pow10(s.len()) == 10 * pow10((s.len() - 1) as nat));
    }
}

} // verus!
