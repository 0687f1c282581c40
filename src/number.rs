use vstd::prelude::*;

verus! {

// The language's numbers are IEEE-754 doubles, held here as their 64-bit patterns. What
// needs floating-point arithmetic comes from a `NumberSystem` that the host supplies; signs,
// comparisons, equality and conversion to a count are decided on the bits.

/// The floating-point arithmetic that evaluation needs, on bit patterns of IEEE-754 doubles.
pub trait NumberSystem {
    /// The number that a numeric literal (digits with at most one `.`) denotes.
    fn parse(&self, text: &str) -> u64;

    fn add(&self, a: u64, b: u64) -> u64;

    fn sub(&self, a: u64, b: u64) -> u64;

    fn mul(&self, a: u64, b: u64) -> u64;

    fn div(&self, a: u64, b: u64) -> u64;

    fn rem(&self, a: u64, b: u64) -> u64;

    fn pow(&self, a: u64, b: u64) -> u64;

    /// The number in the host's default decimal form.
    fn render(&self, a: u64) -> String;
}

pub const SIGN_BIT: u64 = 0x8000_0000_0000_0000;

pub const MAGNITUDE_MASK: u64 = 0x7fff_ffff_ffff_ffff;

pub const FRACTION_MASK: u64 = 0x000f_ffff_ffff_ffff;

pub open spec fn exponent_bits(b: u64) -> u64 {
    (b >> 52u64) & 0x7ffu64
}

pub open spec fn is_nan(b: u64) -> bool {
    exponent_bits(b) == 0x7ffu64 && b & FRACTION_MASK != 0
}

pub open spec fn is_negative(b: u64) -> bool {
    b & SIGN_BIT != 0
}

pub open spec fn magnitude(b: u64) -> u64 {
    b & MAGNITUDE_MASK
}

/// An integer that orders non-NaN numbers as the reals they stand for do; both zeros map to 0.
pub open spec fn order_key(b: u64) -> int {
    if is_negative(b) {
        -(magnitude(b) as int)
    } else {
        magnitude(b) as int
    }
}

/// IEEE equality: NaN equals nothing, and the two zeros are equal.
pub open spec fn num_eq(a: u64, b: u64) -> bool {
    !is_nan(a) && !is_nan(b) && order_key(a) == order_key(b)
}

/// IEEE `<`: false whenever NaN takes part.
pub open spec fn num_lt(a: u64, b: u64) -> bool {
    !is_nan(a) && !is_nan(b) && order_key(a) < order_key(b)
}

/// A number is truthy unless it is zero; NaN is truthy.
pub open spec fn num_truthy(b: u64) -> bool {
    magnitude(b) != 0
}

/// The whole number that `b` stands for, when it is a non-negative integer that fits in 64
/// bits.
pub open spec fn count_of(b: u64) -> Option<u64> {
    let e = exponent_bits(b);
    let mant = (b & FRACTION_MASK) | 0x0010_0000_0000_0000u64;
    if magnitude(b) == 0 {
        Some(0)
    } else if is_negative(b) || e == 0x7ffu64 || e < 1023 {
        None
    } else if e - 1023 <= 52 {
        let drop = (52 - (e - 1023)) as u64;
        if mant & ((1u64 << drop) - 1) as u64 == 0 {
            Some(mant >> drop)
        } else {
            None
        }
    } else if e - 1023 <= 63 {
        Some((mant << ((e - 1023 - 52) as u64)) as u64)
    } else {
        None
    }
}

pub fn is_nan_exec(b: u64) -> (r: bool)
    ensures
        r == is_nan(b),
{
    (b >> 52u64) & 0x7ffu64 == 0x7ffu64 && b & FRACTION_MASK != 0
}

fn order_key_cmp(a: u64, b: u64) -> (r: (bool, bool))
    ensures
        r.0 == (order_key(a) == order_key(b)),
        r.1 == (order_key(a) < order_key(b)),
{
    let ma = a & MAGNITUDE_MASK;
    let mb = b & MAGNITUDE_MASK;
    let na = a & SIGN_BIT != 0;
    let nb = b & SIGN_BIT != 0;
    let eq = if na == nb { ma == mb } else { ma == 0 && mb == 0 };
    let lt = if !na && !nb {
        ma < mb
    } else if na && nb {
        mb < ma
    } else if na {
        !(ma == 0 && mb == 0)
    } else {
        false
    };
    (eq, lt)
}

pub fn num_eq_exec(a: u64, b: u64) -> (r: bool)
    ensures
        r == num_eq(a, b),
{
    let (eq, _) = order_key_cmp(a, b);
    !is_nan_exec(a) && !is_nan_exec(b) && eq
}

pub fn num_lt_exec(a: u64, b: u64) -> (r: bool)
    ensures
        r == num_lt(a, b),
{
    let (_, lt) = order_key_cmp(a, b);
    !is_nan_exec(a) && !is_nan_exec(b) && lt
}

pub fn num_le_exec(a: u64, b: u64) -> (r: bool)
    ensures
        r == (num_lt(a, b) || num_eq(a, b)),
{
    num_lt_exec(a, b) || num_eq_exec(a, b)
}

pub fn num_truthy_exec(b: u64) -> (r: bool)
    ensures
        r == num_truthy(b),
{
    b & MAGNITUDE_MASK != 0
}

/// The number with its sign flipped.
pub fn negate(b: u64) -> (r: u64)
    ensures
        r == b ^ SIGN_BIT,
{
    b ^ SIGN_BIT
}

pub fn count_of_exec(b: u64) -> (r: Option<u64>)
    ensures
        r == count_of(b),
{
    let e = (b >> 52u64) & 0x7ffu64;
    let mant = (b & FRACTION_MASK) | 0x0010_0000_0000_0000u64;
    if b & MAGNITUDE_MASK == 0 {
        Some(0)
    } else if b & SIGN_BIT != 0 || e == 0x7ffu64 || e < 1023 {
        None
    } else if e - 1023 <= 52 {
        let drop = 52 - (e - 1023);
        assert(1u64 << drop >= 1) by (bit_vector)
            requires
                drop <= 52,
        ;
        if mant & ((1u64 << drop) - 1) == 0 {
            Some(mant >> drop)
        } else {
            None
        }
    } else if e - 1023 <= 63 {
        Some(mant << (e - 1023 - 52))
    } else {
        None
    }
}

/// 2^52, the weight of the implicit leading bit of a double's significand.
pub const HIDDEN_BIT: u64 = 0x0010_0000_0000_0000;

/// 2^53: below it every whole number is a double exactly.
pub const EXACT_LIMIT: u64 = 0x0020_0000_0000_0000;

/// Doubles `m` until it reaches 2^52, counting the doublings in `k` (at most 52 of them).
pub open spec fn shift_up(m: int, k: int) -> (int, int)
    decreases 52 - k,
{
    if m <= 0 || m >= HIDDEN_BIT || k >= 52 {
        (m, k)
    } else {
        shift_up(2 * m, k + 1)
    }
}

/// The IEEE-754 double of a whole number below 2^53: with the significand `m` in
/// [2^52, 2^53) and `n = m * 2^-k`, the biased exponent is 1075 - k.
pub open spec fn integer_bits(n: int) -> u64 {
    if n <= 0 {
        0
    } else {
        let (m, k) = shift_up(n, 0);
        ((1075 - k) * HIDDEN_BIT + (m - HIDDEN_BIT)) as u64
    }
}

pub open spec fn digit_value(c: char) -> int {
    (c as int) - ('0' as int)
}

/// The number that the digits of `t` spell, held at 2^53 once it gets that large or once a
/// character is not a digit.
pub open spec fn capped_value(t: Seq<char>) -> int
    decreases t.len(),
{
    if t.len() == 0 {
        0
    } else {
        let v = if crate::lexer::is_digit(t.last()) {
            capped_value(t.drop_last()) * 10 + digit_value(t.last())
        } else {
            EXACT_LIMIT as int
        };
        if v >= EXACT_LIMIT { EXACT_LIMIT as int } else { v }
    }
}

/// The whole number a literal spells, when it is all digits and below 2^53.
pub open spec fn literal_integer(t: Seq<char>) -> Option<int> {
    if (forall|i: int| 0 <= i < t.len() ==> crate::lexer::is_digit(#[trigger] t[i])) && capped_value(t) < EXACT_LIMIT {
        Some(capped_value(t))
    } else {
        None
    }
}

/// The double of a whole number below 2^53.
pub fn integer_to_bits(n: u64) -> (r: u64)
    requires
        n < EXACT_LIMIT,
    ensures
        r == integer_bits(n as int),
{
    if n == 0 {
        return 0;
    }
    let mut m = n;
    let mut k: u64 = 0;
    proof {
        vstd::arithmetic::power2::lemma2_to64();
    }
    while m < HIDDEN_BIT && k < 52
        invariant
            0 < m < EXACT_LIMIT,
            k <= 52,
            shift_up(n as int, 0) == shift_up(m as int, k as int),
            m as int >= vstd::arithmetic::power2::pow2(k as nat),
        decreases 52 - k,
    {
        proof {
            vstd::arithmetic::power2::lemma_pow2_unfold((k + 1) as nat);
        }
        m = 2 * m;
        k = k + 1;
    }
    proof {
        vstd::arithmetic::power2::lemma2_to64_rest();
    }
    (1075 - k) * HIDDEN_BIT + (m - HIDDEN_BIT)
}

/// The number of a numeric literal: whole numbers below 2^53 are converted here, exactly;
/// any other literal by the host.
pub fn literal_bits<N: NumberSystem>(text: &String, numbers: &N) -> (r: u64)
    ensures
        literal_integer(text@) is Some ==> r == integer_bits(literal_integer(text@)->Some_0),
{
    let chars = crate::lexer::chars_of(text.as_str());
    let mut v: u64 = 0;
    let mut k: usize = 0;
    let mut all_digits = true;
    while k < chars.len()
        invariant
            k <= chars@.len(),
            chars@ == text@,
            v as int == capped_value(chars@.take(k as int)),
            v <= EXACT_LIMIT,
            all_digits == (forall|i: int| 0 <= i < k ==> crate::lexer::is_digit(#[trigger] chars@[i])),
        decreases chars@.len() - k,
    {
        let c = chars[k];
        let ghost prefix = chars@.take(k as int);
        proof {
            assert(chars@.take(k + 1).drop_last() =~= prefix);
        }
        if !('0' <= c && c <= '9') {
            all_digits = false;
        }
        let d: u64 = if '0' <= c && c <= '9' { (c as u64) - ('0' as u64) } else { 0 };
        let ghost dv = digit_value(c);
        if '0' <= c && c <= '9' && v < EXACT_LIMIT {
            let w = v * 10 + d;
            v = if w >= EXACT_LIMIT { EXACT_LIMIT } else { w };
        } else if v < EXACT_LIMIT {
            v = EXACT_LIMIT;
        }
        k = k + 1;
    }
    proof {
        assert(chars@.take(k as int) =~= text@);
    }
    if all_digits && v < EXACT_LIMIT {
        integer_to_bits(v)
    } else {
        numbers.parse(text.as_str())
    }
}

} // verus!
