use vstd::prelude::*;

use crate::decimal::{reaches_f64_overflow, reaches_overflow};

verus! {

pub open spec fn is_digit(b: u8) -> bool {
    48 <= b <= 57
}

pub open spec fn all_digits(s: Seq<u8>) -> bool {
    forall|i: int| 0 <= i < s.len() ==> is_digit(#[trigger] s[i])
}

/// The value of a string of decimal digits.
pub open spec fn digits_value(s: Seq<u8>) -> nat
    decreases s.len(),
{
    if s.len() == 0 {
        0
    } else {
        digits_value(s.drop_last()) * 10 + (s.last() - 48) as nat
    }
}

/// The text after an optional leading `+`.
pub open spec fn unsigned_body(s: Seq<u8>) -> Seq<u8> {
    if s.len() > 0 && s[0] == 43 {
        s.drop_first()
    } else {
        s
    }
}

/// What `str::parse::<u64>` gives for these bytes: an optional `+`, then one or more
/// digits whose value fits.
pub open spec fn parsed_u64(s: Seq<u8>) -> Option<u64> {
    let d = unsigned_body(s);
    if d.len() > 0 && all_digits(d) && digits_value(d) <= u64::MAX {
        Some(digits_value(d) as u64)
    } else {
        None
    }
}

/// What `str::parse::<u32>` gives for these bytes.
pub open spec fn parsed_u32(s: Seq<u8>) -> Option<u32> {
    match parsed_u64(s) {
        Some(v) => if v <= u32::MAX {
            Some(v as u32)
        } else {
            None
        },
        None => None,
    }
}

/// `x` held at the largest `u64`.
pub open spec fn saturate(x: nat) -> u64 {
    if x <= u64::MAX {
        x as u64
    } else {
        u64::MAX
    }
}

proof fn lemma_digits_value_prefix(s: Seq<u8>, i: int)
    requires
        0 <= i <= s.len(),
        all_digits(s),
    ensures
        digits_value(s.subrange(0, i)) <= digits_value(s),
    decreases s.len() - i,
{
    if i < s.len() {
        lemma_digits_value_prefix(s, i + 1);
        assert(s.subrange(0, i + 1).drop_last() =~= s.subrange(0, i));
    } else {
        assert(s.subrange(0, i) =~= s);
    }
}

/// `str::parse::<u64>` on the bytes of a header value.
pub fn parse_u64(s: &[u8]) -> (r: Option<u64>)
    ensures
        r == parsed_u64(s@),
{
    let start: usize = if s.len() > 0 && s[0] == 43 { 1 } else { 0 };
    let ghost body = s@.subrange(start as int, s@.len() as int);
    proof {
        assert(unsigned_body(s@) =~= body);
    }
    if start == s.len() {
        return None;
    }
    let mut acc: u64 = 0;
    let mut i: usize = start;
    while i < s.len()
        invariant
            start <= i <= s@.len(),
            body == s@.subrange(start as int, s@.len() as int),
            unsigned_body(s@) == body,
            all_digits(s@.subrange(start as int, i as int)),
            acc == digits_value(s@.subrange(start as int, i as int)),
        decreases s@.len() - i,
    {
        let b = s[i];
        let ghost prefix = s@.subrange(start as int, i as int);
        let ghost next = s@.subrange(start as int, i + 1);
        proof {
            assert(body[i - start] == b);
        }
        if b < 48 || b > 57 {
            proof {
                assert(!is_digit(body[i - start]));
                assert(!all_digits(body));
            }
            return None;
        }
        proof {
            assert(next.drop_last() =~= prefix);
            assert(next.last() == b);
            assert(all_digits(next));
        }
        let d: u64 = (b - 48) as u64;
        if acc > (u64::MAX - d) / 10 {
            proof {
                assert(acc * 10 + d > u64::MAX) by (nonlinear_arith)
                    requires
                        acc > (u64::MAX - d) / 10,
                        d <= 9,
                ;
                assert(digits_value(next) == acc * 10 + d);
                if all_digits(body) {
                    lemma_digits_value_prefix(body, i + 1 - start);
                    assert(body.subrange(0, i + 1 - start) =~= next);
                    assert(digits_value(body) > u64::MAX);
                }
            }
            return None;
        }
        acc = acc * 10 + d;
        i = i + 1;
    }
    proof {
        assert(s@.subrange(start as int, i as int) =~= body);
    }
    Some(acc)
}

/// `str::parse::<u32>` on the bytes of a header value.
pub fn parse_u32(s: &[u8]) -> (r: Option<u32>)
    ensures
        r == parsed_u32(s@),
{
    match parse_u64(s) {
        Some(v) => if v <= u32::MAX as u64 {
            Some(v as u32)
        } else {
            None
        },
        None => None,
    }
}


/// Index of the first byte of `s` equal to `x` or `y`, or `s.len()` when there is none.
pub open spec fn first_of(s: Seq<u8>, x: u8, y: u8) -> nat
    decreases s.len(),
{
    if s.len() == 0 {
        0
    } else if s[0] == x || s[0] == y {
        0
    } else {
        1 + first_of(s.drop_first(), x, y)
    }
}

proof fn lemma_first_of(s: Seq<u8>, x: u8, y: u8, i: int)
    requires
        0 <= i <= s.len(),
        forall|j: int| 0 <= j < i ==> s[j] != x && s[j] != y,
        i < s.len() ==> s[i] == x || s[i] == y,
    ensures
        first_of(s, x, y) == i,
    decreases s.len(),
{
    if s.len() > 0 && i > 0 {
        lemma_first_of(s.drop_first(), x, y, i - 1);
    }
}

/// The text after an optional leading `+` or `-`.
pub open spec fn signless(s: Seq<u8>) -> Seq<u8> {
    if s.len() > 0 && (s[0] == 43 || s[0] == 45) {
        s.drop_first()
    } else {
        s
    }
}

/// `10^n`.
pub open spec fn pow10(n: nat) -> nat
    decreases n,
{
    if n == 0 {
        1
    } else {
        10 * pow10((n - 1) as nat)
    }
}

proof fn lemma_pow10_grows(i: nat, n: nat)
    requires
        i <= n,
    ensures
        pow10(i) <= pow10(n),
    decreases n,
{
    if i < n {
        lemma_pow10_grows(i, (n - 1) as nat);
    }
}

/// The mantissa of a number: the text before its first `e` or `E`.
pub open spec fn mantissa(b: Seq<u8>) -> Seq<u8> {
    b.subrange(0, first_of(b, 101, 69) as int)
}

/// The text after the first `e` or `E`, if there is one.
pub open spec fn exponent_text(b: Seq<u8>) -> Option<Seq<u8>> {
    let e = first_of(b, 101, 69) as int;
    if e < b.len() {
        Some(b.subrange(e + 1, b.len() as int))
    } else {
        None
    }
}

/// The digits of a mantissa before its first dot.
pub open spec fn int_digits(m: Seq<u8>) -> Seq<u8> {
    m.subrange(0, first_of(m, 46, 46) as int)
}

/// The digits of a mantissa after its first dot.
pub open spec fn frac_digits(m: Seq<u8>) -> Seq<u8> {
    let d = first_of(m, 46, 46) as int;
    if d < m.len() {
        m.subrange(d + 1, m.len() as int)
    } else {
        Seq::empty()
    }
}

/// The value of an exponent (`Some(0)` when there is none): an optional sign and one or
/// more digits, whose magnitude is held at the largest `u64`; `None` when malformed.
pub open spec fn exponent_value(x: Option<Seq<u8>>) -> Option<int> {
    match x {
        None => Some(0),
        Some(t) => {
            let d = signless(t);
            if d.len() > 0 && all_digits(d) {
                let v = saturate(digits_value(d)) as int;
                Some(if t[0] == 45 { -v } else { v })
            } else {
                None
            }
        },
    }
}

/// The digits `d` read as an integer scaled by `10^scale`, rounded down and held at
/// the largest `u64`.
pub open spec fn shifted(d: Seq<u8>, scale: int) -> u64 {
    if scale >= 0 {
        saturate(digits_value(d) * pow10(scale as nat))
    } else if d.len() + scale <= 0 {
        0
    } else {
        saturate(digits_value(d.subrange(0, d.len() + scale)))
    }
}

/// A finite non-negative number of seconds, as `str::parse::<f64>` reads it (`30`,
/// `1.5`, `.25`, `+2.`, `1e3`, `2.5E-1`, `-0`), in milliseconds: its exact decimal
/// value rounded down to the millisecond and held at the largest `u64`. A negative
/// number other than zero, a value large enough that the f64 reading is infinite, and
/// names such as `inf` or `NaN`, do not read.
pub open spec fn parsed_seconds_ms(s: Seq<u8>) -> Option<u64> {
    let b = signless(s);
    let m = mantissa(b);
    let i = int_digits(m);
    let f = frac_digits(m);
    let e = exponent_value(exponent_text(b));
    if !(all_digits(i) && all_digits(f) && i.len() + f.len() > 0 && e is Some) {
        None
    } else if s[0] == 45 {
        if digits_value(i + f) == 0 {
            Some(0)
        } else {
            None
        }
    } else if reaches_f64_overflow(i + f, e->0 - f.len()) {
        None
    } else {
        Some(shifted(i + f, e->0 - f.len() + 3))
    }
}

/// The value of `s[start..end]` as digits, held at the largest `u64`, and whether
/// they are all digits.
fn saturating_digits(s: &[u8], start: usize, end: usize) -> (r: (u64, bool))
    requires
        start <= end <= s@.len(),
    ensures
        r.1 == all_digits(s@.subrange(start as int, end as int)),
        r.1 ==> r.0 == saturate(digits_value(s@.subrange(start as int, end as int))),
{
    let ghost whole = s@.subrange(start as int, end as int);
    let mut acc: u64 = 0;
    let mut i: usize = start;
    while i < end
        invariant
            start <= i <= end <= s@.len(),
            whole == s@.subrange(start as int, end as int),
            all_digits(s@.subrange(start as int, i as int)),
            acc == saturate(digits_value(s@.subrange(start as int, i as int))),
        decreases end - i,
    {
        let b = s[i];
        let ghost prefix = s@.subrange(start as int, i as int);
        let ghost next = s@.subrange(start as int, i + 1);
        proof {
            assert(whole[i - start] == b);
        }
        if b < 48 || b > 57 {
            proof {
                assert(!is_digit(whole[i - start]));
            }
            return (0, false);
        }
        proof {
            assert(next.drop_last() =~= prefix);
            assert(next.last() == b);
            assert(all_digits(next));
        }
        let d: u64 = (b - 48) as u64;
        proof {
            assert(digits_value(next) == digits_value(prefix) * 10 + d);
        }
        if acc > (u64::MAX - d) / 10 {
            proof {
                assert(acc * 10 + d > u64::MAX) by (nonlinear_arith)
                    requires
                        acc > (u64::MAX - d) / 10,
                        d <= 9,
                ;
                assert(digits_value(prefix) >= acc);
                assert(digits_value(prefix) * 10 >= acc * 10) by (nonlinear_arith)
                    requires
                        digits_value(prefix) >= acc,
                ;
            }
            acc = u64::MAX;
        } else {
            proof {
                assert(acc * 10 + d <= u64::MAX) by (nonlinear_arith)
                    requires
                        acc <= (u64::MAX - d) / 10,
                        d <= 9,
                ;
                assert(acc < u64::MAX);
                assert(digits_value(prefix) == acc);
            }
            acc = acc * 10 + d;
        }
        i = i + 1;
    }
    proof {
        assert(s@.subrange(start as int, i as int) =~= whole);
    }
    (acc, true)
}

/// Index of the first byte in `s[start..end]` equal to `x` or `y`, or `end`.
fn find_byte(s: &[u8], start: usize, end: usize, x: u8, y: u8) -> (r: usize)
    requires
        start <= end <= s@.len(),
    ensures
        start <= r <= end,
        r - start == first_of(s@.subrange(start as int, end as int), x, y),
{
    let ghost t = s@.subrange(start as int, end as int);
    let mut i: usize = start;
    while i < end && s[i] != x && s[i] != y
        invariant
            start <= i <= end <= s@.len(),
            t == s@.subrange(start as int, end as int),
            forall|j: int| start <= j < i ==> s@[j] != x && s@[j] != y,
        decreases end - i,
    {
        i = i + 1;
    }
    proof {
        assert forall|j: int| 0 <= j < i - start implies t[j] != x && t[j] != y by {
            assert(t[j] == s@[start + j]);
        }
        if i < end {
            assert(t[i - start] == s@[i as int]);
        }
        lemma_first_of(t, x, y, i - start);
    }
    i
}

/// `s[a..b]` followed by `s[c..d]`.
fn join_ranges(s: &[u8], a: usize, b: usize, c: usize, d: usize) -> (r: Vec<u8>)
    requires
        a <= b <= s@.len(),
        c <= d <= s@.len(),
    ensures
        r@ == s@.subrange(a as int, b as int) + s@.subrange(c as int, d as int),
{
    let mut r: Vec<u8> = Vec::new();
    let mut i: usize = a;
    while i < b
        invariant
            a <= i <= b <= s@.len(),
            r@ == s@.subrange(a as int, i as int),
        decreases b - i,
    {
        r.push(s[i]);
        i = i + 1;
        assert(r@ =~= s@.subrange(a as int, i as int));
    }
    let mut j: usize = c;
    while j < d
        invariant
            c <= j <= d <= s@.len(),
            r@ == s@.subrange(a as int, b as int) + s@.subrange(c as int, j as int),
        decreases d - j,
    {
        r.push(s[j]);
        j = j + 1;
        assert(r@ =~= s@.subrange(a as int, b as int) + s@.subrange(c as int, j as int));
    }
    r
}

/// `saturate(x) * 10^n`, held at the largest `u64`.
fn times_pow10(v: u64, n: u128, x: Ghost<nat>) -> (r: u64)
    requires
        v == saturate(x@),
    ensures
        r == saturate(x@ * pow10(n as nat)),
{
    let mut acc: u64 = v;
    let mut i: u128 = 0;
    assert(pow10(0) == 1);
    assert(x@ * pow10(0) == x@) by (nonlinear_arith)
        requires
            pow10(0) == 1,
    ;
    while i < n && acc != 0 && acc != u64::MAX
        invariant
            i <= n,
            acc == saturate(x@ * pow10(i as nat)),
        decreases n - i,
    {
        let ghost p = x@ * pow10(i as nat);
        assert(x@ * pow10((i + 1) as nat) == p * 10) by (nonlinear_arith)
            requires
                pow10((i + 1) as nat) == 10 * pow10(i as nat),
                p == x@ * pow10(i as nat),
        ;
        if acc > u64::MAX / 10 {
            acc = u64::MAX;
        } else {
            acc = acc * 10;
        }
        i = i + 1;
    }
    proof {
        if i < n {
            lemma_pow10_grows(i as nat, n as nat);
            lemma_pow10_grows(0, i as nat);
            assert(x@ * pow10(i as nat) <= x@ * pow10(n as nat)) by (nonlinear_arith)
                requires
                    pow10(i as nat) <= pow10(n as nat),
            ;
            if acc == 0 {
                assert(x@ == 0) by (nonlinear_arith)
                    requires
                        x@ * pow10(i as nat) == 0,
                        pow10(i as nat) >= 1,
                ;
            }
        }
    }
    acc
}

/// The digits `d` scaled by `10^scale` (see `shifted`).
fn shift_digits(d: &Vec<u8>, scale: i128) -> (r: u64)
    requires
        all_digits(d@),
    ensures
        r == shifted(d@, scale as int),
{
    if scale >= 0 {
        let (v, _) = saturating_digits(d.as_slice(), 0, d.len());
        proof {
            assert(d@.subrange(0, d@.len() as int) =~= d@);
        }
        times_pow10(v, scale as u128, Ghost(digits_value(d@)))
    } else {
        let keep: i128 = d.len() as i128 + scale;
        if keep <= 0 {
            0
        } else {
            proof {
                assert forall|j: int| 0 <= j < keep implies is_digit(d@.subrange(0, keep as int)[j]) by {
                    assert(d@.subrange(0, keep as int)[j] == d@[j]);
                }
            }
            let (v, _) = saturating_digits(d.as_slice(), 0, keep as usize);
            v
        }
    }
}

/// The exponent after the `e` at `e` (none when `e == s.len()`), as its sign and
/// magnitude (see `exponent_value`).
fn read_exponent(s: &[u8], e: usize) -> (r: Option<(bool, u64)>)
    requires
        e <= s@.len(),
    ensures
        match r {
            Some((negative, v)) => exponent_value(
                if e < s@.len() {
                    Some(s@.subrange(e + 1, s@.len() as int))
                } else {
                    None
                },
            ) == Some(if negative { -(v as int) } else { v as int }),
            None => exponent_value(
                if e < s@.len() {
                    Some(s@.subrange(e + 1, s@.len() as int))
                } else {
                    None
                },
            ) is None,
        },
{
    if e == s.len() {
        return Some((false, 0));
    }
    let es = e + 1;
    let ghost t = s@.subrange(es as int, s@.len() as int);
    if es == s.len() {
        proof {
            assert(signless(t).len() == 0);
        }
        return None;
    }
    let negative = s[es] == 45;
    let ds: usize = if s[es] == 43 || s[es] == 45 { es + 1 } else { es };
    proof {
        assert(t[0] == s@[es as int]);
        assert(signless(t) =~= s@.subrange(ds as int, s@.len() as int));
    }
    if ds == s.len() {
        return None;
    }
    let (v, ok) = saturating_digits(s, ds, s.len());
    if !ok {
        return None;
    }
    Some((negative, v))
}

/// Reads a `retry-after` value in seconds (see `parsed_seconds_ms`), in milliseconds.
#[verifier::rlimit(60)]
pub fn parse_seconds_ms(s: &[u8]) -> (r: Option<u64>)
    ensures
        r == parsed_seconds_ms(s@),
{
    if s.len() == 0 {
        return None;
    }
    let negative = s[0] == 45;
    let start: usize = if s[0] == 43 || s[0] == 45 { 1 } else { 0 };
    let ghost b = s@.subrange(start as int, s@.len() as int);
    proof {
        assert(signless(s@) =~= b);
    }
    let e = find_byte(s, start, s.len(), 101, 69);
    let dot = find_byte(s, start, e, 46, 46);
    let frac_start: usize = if dot < e { dot + 1 } else { e };
    let ghost m = s@.subrange(start as int, e as int);
    proof {
        assert(mantissa(b) =~= m);
        assert(int_digits(m) =~= s@.subrange(start as int, dot as int));
        assert(frac_digits(m) =~= s@.subrange(frac_start as int, e as int));
    }
    let (_, int_ok) = saturating_digits(s, start, dot);
    let (_, frac_ok) = saturating_digits(s, frac_start, e);
    if !int_ok || !frac_ok || (dot - start) + (e - frac_start) == 0 {
        return None;
    }
    let ghost et = exponent_text(b);
    proof {
        if e < s.len() {
            assert(et == Some(s@.subrange(e + 1, s@.len() as int)));
        } else {
            assert(et is None);
        }
    }
    let (exp_negative, exp_value) = match read_exponent(s, e) {
        Some(x) => x,
        None => return None,
    };
    let d = join_ranges(s, start, dot, frac_start, e);
    proof {
        assert(all_digits(d@));
    }
    let (dval, _) = saturating_digits(d.as_slice(), 0, d.len());
    proof {
        assert(d@.subrange(0, d@.len() as int) =~= d@);
    }
    if negative {
        if dval == 0 {
            return Some(0);
        } else {
            return None;
        }
    }
    let f = e - frac_start;
    let exponent: i128 = if exp_negative {
        -(exp_value as i128)
    } else {
        exp_value as i128
    };
    if reaches_overflow(&d, exponent - (f as i128)) {
        return None;
    }
    let scale: i128 = exponent - (f as i128) + 3;
    Some(shift_digits(&d, scale))
}

} // verus!
