//! Double-precision numbers, carried by their IEEE-754 bit pattern.
use vstd::prelude::*;
use vstd::arithmetic::power2::{pow2, lemma_pow2_unfold, lemma2_to64, lemma2_to64_rest};

verus! {

/// A double-precision number, given by the 64 bits of its IEEE-754 encoding.
#[derive(Clone, Copy, Debug, PartialEq, Eq, Hash)]
pub struct Number {
    pub bits: u64,
}

/// Two to the power 52: the weight of the implicit leading mantissa bit.
pub const MANTISSA_UNIT: u64 = 0x10_0000_0000_0000;

/// Two to the power 63: the sign bit.
pub const SIGN_BIT: u64 = 0x8000_0000_0000_0000;

/// The bit pattern of positive infinity; every larger magnitude is a NaN.
pub const INFINITY_BITS: u64 = 0x7FF0_0000_0000_0000;

/// The bit pattern of 1.0.
pub const ONE_BITS: u64 = 0x3FF0_0000_0000_0000;

/// The value of a digit character, for the ten ASCII digits.
pub open spec fn digit_value(c: char) -> nat {
    (c as u32 - '0' as u32) as nat
}

/// Whether `c` is one of the ten ASCII digits.
pub open spec fn is_digit(c: char) -> bool {
    '0' <= c <= '9'
}

/// Whether every character of `s` is an ASCII digit.
pub open spec fn all_digits(s: Seq<char>) -> bool {
    forall|i: int| 0 <= i < s.len() ==> is_digit(#[trigger] s[i])
}

/// The natural number that a string of ASCII digits denotes in base ten.
pub open spec fn decimal_value(s: Seq<char>) -> nat
    decreases s.len(),
{
    if s.len() == 0 {
        0
    } else {
        decimal_value(s.drop_last()) * 10 + digit_value(s.last())
    }
}

/// Halves `q` until it is below two to the power 54, counting the halvings in
/// `e` and recording in `sticky` whether a one bit was dropped.
pub open spec fn halve_to_54(q: nat, sticky: bool, e: nat) -> (nat, bool, nat)
    decreases q,
{
    if q < 2 * 2 * MANTISSA_UNIT {
        (q, sticky, e)
    } else {
        halve_to_54(q / 2, sticky || q % 2 == 1, e + 1)
    }
}

/// Doubles a positive `q` until it reaches two to the power 52, counting the
/// doublings in `e`.
pub open spec fn double_to_52(q: nat, e: nat) -> (nat, nat)
    decreases
            (if q < MANTISSA_UNIT {
                MANTISSA_UNIT - q
            } else {
                0
            }),
{
    if q == 0 || q >= MANTISSA_UNIT {
        (q, e)
    } else {
        double_to_52(q * 2, e + 1)
    }
}

/// The bits of the double with exponent field `x` and 53-bit mantissa `m`
/// (the leading bit included), or of infinity where the exponent is too large.
pub open spec fn encode(x: nat, m: nat) -> u64 {
    if x >= 2047 {
        INFINITY_BITS
    } else {
        (x * MANTISSA_UNIT + (m - MANTISSA_UNIT)) as u64
    }
}

/// The bits of the double nearest to the natural number `n`, ties going to the
/// even mantissa and magnitudes beyond the largest finite double to infinity.
///
/// Below two to the power 53 every natural number is a double: it is scaled up
/// to a 53-bit mantissa. A larger one is halved down to 54 bits; the lowest of
/// them is the guard bit, and the 53-bit mantissa above it is rounded up when
/// the guard bit is set and either a lower one bit was dropped or the mantissa
/// is odd.
pub open spec fn nearest_double_bits(n: nat) -> u64 {
    if n == 0 {
        0
    } else if n < 2 * MANTISSA_UNIT {
        let (m, up) = double_to_52(n, 0);
        encode((1023 + 52 - up) as nat, m)
    } else {
        let (q, sticky, down) = halve_to_54(n, false, 0);
        let mantissa = q / 2;
        let round_up = q % 2 == 1 && (sticky || mantissa % 2 == 1);
        let rounded = if round_up {
            mantissa + 1
        } else {
            mantissa
        };
        if rounded == 2 * MANTISSA_UNIT {
            encode(1023 + 52 + down + 2, MANTISSA_UNIT as nat)
        } else {
            encode(1023 + 52 + down + 1, rounded)
        }
    }
}

/// The natural number that a sequence of digit values denotes in base ten.
pub open spec fn digits_value(d: Seq<u8>) -> nat
    decreases d.len(),
{
    if d.len() == 0 {
        0
    } else {
        digits_value(d.drop_last()) * 10 + d.last() as nat
    }
}

/// Whether every element of `d` is a decimal digit value.
pub open spec fn digits_ok(d: Seq<u8>) -> bool {
    forall|i: int| 0 <= i < d.len() ==> #[trigger] d[i] <= 9
}

proof fn lemma_prefix_le(d: Seq<u8>, i: int)
    requires
        0 <= i <= d.len(),
    ensures
        digits_value(d.take(i)) <= digits_value(d),
    decreases d.len() - i,
{
    if i < d.len() {
        assert(d.take(i + 1).drop_last() =~= d.take(i));
        lemma_prefix_le(d, i + 1);
    } else {
        assert(d.take(i) =~= d);
    }
}

proof fn lemma_halve_counts(q: nat, sticky: bool, e: nat)
    ensures
        halve_to_54(q, sticky, e).2 >= e,
        halve_to_54(q, sticky, e).0 < 4 * MANTISSA_UNIT,
        q >= 2 * MANTISSA_UNIT ==> halve_to_54(q, sticky, e).0 >= 2 * MANTISSA_UNIT,
    decreases q,
{
    if q >= 2 * 2 * MANTISSA_UNIT {
        lemma_halve_counts(q / 2, sticky || q % 2 == 1, e + 1);
    }
}

/// The digit values of the characters `from..to` of `chars`, where all of them
/// are ASCII digits.
fn digits_of(chars: &Vec<char>, from: usize, to: usize) -> (r: Option<Vec<u8>>)
    requires
        from <= to <= chars.len(),
    ensures
        match r {
            Some(d) => all_digits(chars@.subrange(from as int, to as int)) && digits_ok(d@)
                && digits_value(d@) == decimal_value(chars@.subrange(from as int, to as int)),
            None => !all_digits(chars@.subrange(from as int, to as int)),
        },
{
    let mut d: Vec<u8> = Vec::new();
    let mut i: usize = from;
    while i < to
        invariant
            from <= i <= to <= chars.len(),
            all_digits(chars@.subrange(from as int, i as int)),
            digits_ok(d@),
            digits_value(d@) == decimal_value(chars@.subrange(from as int, i as int)),
        decreases to - i,
    {
        let c: char = chars[i];
        if !('0' <= c && c <= '9') {
            assert(chars@.subrange(from as int, to as int)[i - from] == c);
            return None;
        }
        let v: u8 = (c as u32 - '0' as u32) as u8;
        proof {
            let next = chars@.subrange(from as int, i + 1);
            assert(next.drop_last() =~= chars@.subrange(from as int, i as int));
            assert(next.last() == c);
            assert(d@.push(v).drop_last() =~= d@);
            assert forall|j: int| 0 <= j < next.len() implies is_digit(#[trigger] next[j]) by {
                if j < i - from {
                    assert(next[j] == chars@.subrange(from as int, i as int)[j]);
                }
            }
        }
        d.push(v);
        i += 1;
    }
    Some(d)
}

/// The value of the digits, where it is below two to the power 54.
fn small_value(d: &Vec<u8>) -> (r: Option<u64>)
    requires
        digits_ok(d@),
    ensures
        match r {
            Some(v) => v == digits_value(d@) && v < 4 * MANTISSA_UNIT,
            None => digits_value(d@) >= 4 * MANTISSA_UNIT,
        },
{
    let mut acc: u64 = 0;
    let mut i: usize = 0;
    while i < d.len()
        invariant
            i <= d.len(),
            digits_ok(d@),
            acc == digits_value(d@.take(i as int)),
            acc < 4 * MANTISSA_UNIT,
        decreases d.len() - i,
    {
        proof {
            assert(d@.take(i + 1).drop_last() =~= d@.take(i as int));
            assert(d@.take(i + 1).last() == d[i as int]);
            lemma_prefix_le(d@, i + 1);
        }
        let next: u64 = acc * 10 + d[i] as u64;
        if next >= 4 * MANTISSA_UNIT {
            return None;
        }
        acc = next;
        i += 1;
    }
    proof {
        assert(d@.take(d.len() as int) =~= d@);
    }
    Some(acc)
}

/// Half of the number that the digits denote, and the bit that was dropped.
fn halve(d: &Vec<u8>) -> (r: (Vec<u8>, bool))
    requires
        digits_ok(d@),
    ensures
        digits_ok(r.0@),
        digits_value(r.0@) == digits_value(d@) / 2,
        r.1 == (digits_value(d@) % 2 == 1),
{
    let mut out: Vec<u8> = Vec::new();
    let mut carry: u8 = 0;
    let mut i: usize = 0;
    while i < d.len()
        invariant
            i <= d.len(),
            digits_ok(d@),
            digits_ok(out@),
            carry <= 1,
            digits_value(d@.take(i as int)) == 2 * digits_value(out@) + carry,
        decreases d.len() - i,
    {
        let cur: u8 = carry * 10 + d[i];
        proof {
            assert(d@.take(i + 1).drop_last() =~= d@.take(i as int));
            assert(d@.take(i + 1).last() == d[i as int]);
            assert(out@.push(cur / 2).drop_last() =~= out@);
        }
        out.push(cur / 2);
        carry = cur % 2;
        i += 1;
    }
    proof {
        assert(d@.take(d.len() as int) =~= d@);
    }
    (out, carry == 1)
}

impl Number {
    /// The number with the given IEEE-754 bits.
    pub fn from_bits(bits: u64) -> (n: Number)
        ensures
            n.bits == bits,
    {
        Number { bits }
    }

    /// The IEEE-754 bits of this number.
    pub fn to_bits(&self) -> (bits: u64)
        ensures
            bits == self.bits,
    {
        self.bits
    }

    /// The magnitude bits: the encoding without its sign.
    pub open spec fn magnitude(self) -> u64 {
        (self.bits % SIGN_BIT) as u64
    }

    /// Whether the sign bit is set.
    pub open spec fn negative(self) -> bool {
        self.bits >= SIGN_BIT
    }

    /// Whether this is one of the NaN encodings.
    pub open spec fn nan(self) -> bool {
        self.magnitude() > INFINITY_BITS
    }

    /// An integer that orders the non-NaN doubles as their values are ordered:
    /// the magnitude bits, negated under the sign bit, so that both zeros get 0.
    pub open spec fn order_key(self) -> int {
        if self.negative() {
            -(self.magnitude() as int)
        } else {
            self.magnitude() as int
        }
    }

    /// IEEE equality: no NaN equals anything, and the two zeros are equal.
    pub open spec fn same_value(self, other: Number) -> bool {
        !self.nan() && !other.nan() && self.order_key() == other.order_key()
    }

    /// IEEE `<`: false when either side is a NaN.
    pub open spec fn below(self, other: Number) -> bool {
        !self.nan() && !other.nan() && self.order_key() < other.order_key()
    }

    /// Whether this is a NaN.
    pub fn is_nan(&self) -> (r: bool)
        ensures
            r == self.nan(),
    {
        self.bits % SIGN_BIT > INFINITY_BITS
    }

    /// Whether the sign bit is set.
    pub fn is_negative(&self) -> (r: bool)
        ensures
            r == self.negative(),
    {
        self.bits >= SIGN_BIT
    }

    /// Whether this is positive or negative zero.
    pub fn is_zero(&self) -> (r: bool)
        ensures
            r == (self.magnitude() == 0),
    {
        self.bits % SIGN_BIT == 0
    }

    fn key(&self) -> (k: i128)
        ensures
            k == self.order_key(),
    {
        let m: u64 = self.bits % SIGN_BIT;
        if self.bits >= SIGN_BIT {
            0 - (m as i128)
        } else {
            m as i128
        }
    }

    /// IEEE `==`.
    pub fn equals(&self, other: &Number) -> (r: bool)
        ensures
            r == self.same_value(*other),
    {
        !self.is_nan() && !other.is_nan() && self.key() == other.key()
    }

    /// IEEE `<`.
    pub fn less_than(&self, other: &Number) -> (r: bool)
        ensures
            r == self.below(*other),
    {
        !self.is_nan() && !other.is_nan() && self.key() < other.key()
    }

    /// IEEE `<=`.
    pub fn less_or_equal(&self, other: &Number) -> (r: bool)
        ensures
            r == (self.below(*other) || self.same_value(*other)),
    {
        !self.is_nan() && !other.is_nan() && self.key() <= other.key()
    }

    /// The double nearest to the number that the characters `from..to` of
    /// `chars` denote in base ten, where all of them are ASCII digits and the
    /// range lies within `chars`.
    pub fn from_decimal(chars: &Vec<char>, from: usize, to: usize) -> (r: Option<Number>)
        ensures
            r == if from <= to <= chars.len() && all_digits(
                chars@.subrange(from as int, to as int),
            ) {
                Some(
                    Number {
                        bits: nearest_double_bits(
                            decimal_value(chars@.subrange(from as int, to as int)),
                        ),
                    },
                )
            } else {
                None
            },
    {
        if from > to || to > chars.len() {
            return None;
        }
        let mut q: Vec<u8> = match digits_of(chars, from, to) {
            Some(d) => d,
            None => {
                return None;
            },
        };
        let ghost n = digits_value(q@);
        let mut sticky = false;
        let mut down: u64 = 0;
        loop
            invariant
                from <= to <= chars.len(),
                all_digits(chars@.subrange(from as int, to as int)),
                digits_ok(q@),
                down <= 971,
                halve_to_54(n, false, 0) == halve_to_54(digits_value(q@), sticky, down as nat),
                down == 0 ==> n == digits_value(q@) && !sticky,
                down > 0 ==> n >= 4 * MANTISSA_UNIT,
                n == decimal_value(chars@.subrange(from as int, to as int)),
            decreases digits_value(q@),
        {
            match small_value(&q) {
                Some(v) => {
                    proof {
                        lemma_halve_counts(n, false, 0);
                    }
                    return Some(Number { bits: Self::round(v, sticky, down) });
                },
                None => {
                    if down == 971 {
                        proof {
                            lemma_halve_counts(digits_value(q@), sticky, down as nat);
                            lemma_halve_counts(n, false, 0);
                        }
                        return Some(Number { bits: INFINITY_BITS });
                    }
                    let (half, bit) = halve(&q);
                    q = half;
                    sticky = sticky || bit;
                    down = down + 1;
                },
            }
        }
    }

    /// The bits for a number that was halved `down` times to the 54 bits `v`.
    fn round(v: u64, sticky: bool, down: u64) -> (bits: u64)
        requires
            v < 4 * MANTISSA_UNIT,
            down <= 971,
            down > 0 ==> v >= 2 * MANTISSA_UNIT,
            down == 0 ==> !sticky,
        ensures
            down == 0 ==> bits == nearest_double_bits(v as nat),
            down > 0 ==> bits == {
                let mantissa = (v / 2) as nat;
                let round_up = v % 2 == 1 && (sticky || mantissa % 2 == 1);
                let rounded = if round_up {
                    mantissa + 1
                } else {
                    mantissa
                };
                if rounded == 2 * MANTISSA_UNIT {
                    encode(1023 + 52 + down as nat + 2, MANTISSA_UNIT as nat)
                } else {
                    encode(1023 + 52 + down as nat + 1, rounded)
                }
            },
    {
        if v == 0 {
            0
        } else if v < 2 * MANTISSA_UNIT {
            let mut m: u64 = v;
            let mut up: u64 = 0;
            proof {
                lemma2_to64();
            }
            while m < MANTISSA_UNIT
                invariant
                    0 < m < 2 * MANTISSA_UNIT,
                    up <= 52,
                    pow2(up as nat) <= m,
                    double_to_52(v as nat, 0) == double_to_52(m as nat, up as nat),
                decreases 52 - up,
            {
                proof {
                    lemma2_to64_rest();
                    lemma_pow2_unfold((up + 1) as nat);
                }
                m = m * 2;
                up = up + 1;
            }
            (1023 + 52 - up) * MANTISSA_UNIT + (m - MANTISSA_UNIT)
        } else {
            let mantissa: u64 = v / 2;
            let round_up = v % 2 == 1 && (sticky || mantissa % 2 == 1);
            let rounded: u64 = if round_up {
                mantissa + 1
            } else {
                mantissa
            };
            let (m, x): (u64, u64) = if rounded == 2 * MANTISSA_UNIT {
                (MANTISSA_UNIT, 1023 + 52 + down + 2)
            } else {
                (rounded, 1023 + 52 + down + 1)
            };
            if x >= 2047 {
                INFINITY_BITS
            } else {
                x * MANTISSA_UNIT + (m - MANTISSA_UNIT)
            }
        }
    }

    /// Positive zero.
    pub fn zero() -> (n: Number)
        ensures
            n.bits == 0,
    {
        Number { bits: 0 }
    }

    /// The number one.
    pub fn one() -> (n: Number)
        ensures
            n.bits == ONE_BITS,
    {
        Number { bits: ONE_BITS }
    }
}


proof fn lemma_double_to_52(q: nat, e: nat)
    requires
        0 < q < 2 * MANTISSA_UNIT,
    ensures
        ({
            let (m, up) = double_to_52(q, e);
            &&& MANTISSA_UNIT <= m < 2 * MANTISSA_UNIT
            &&& e <= up <= e + 52
            &&& m == q * pow2((up - e) as nat)
        }),
    decreases
            (if q < MANTISSA_UNIT {
                MANTISSA_UNIT - q
            } else {
                0
            }),
{
    lemma2_to64();
    lemma2_to64_rest();
    if q < MANTISSA_UNIT {
        lemma_double_to_52(q * 2, e + 1);
        let (m, up) = double_to_52(q * 2, e + 1);
        lemma_pow2_unfold((up - e) as nat);
        assert(m == q * pow2((up - e) as nat)) by (nonlinear_arith)
            requires
                m == (q * 2) * pow2((up - e - 1) as nat),
                pow2((up - e) as nat) == 2 * pow2((up - e - 1) as nat),
        ;
        if up > e + 52 {
            vstd::arithmetic::power2::lemma_pow2_pos((up - e) as nat);
            assert(q * pow2((up - e) as nat) >= pow2((up - e) as nat)) by (nonlinear_arith)
                requires
                    q >= 1,
                    pow2((up - e) as nat) > 0,
            ;
            assert(pow2(53) == 2 * MANTISSA_UNIT) by {
                lemma_pow2_unfold(53);
            }
            if up - e > 53 {
                vstd::arithmetic::power2::lemma_pow2_strictly_increases(53, (up - e) as nat);
            }
            assert(false);
        }
    } else {
        assert(double_to_52(q, e) == (q, e));
        assert(q * pow2(0) == q) by (nonlinear_arith)
            requires
                pow2(0) == 1,
        ;
    }
}

/// A natural number below two to the power 53 is a double exactly: the
/// exponent field `x` and the 53-bit mantissa `m` of its encoding satisfy
/// `m == n * 2^(1075 - x)`, so that the encoded value `m * 2^(x - 1075)` is `n`.
pub proof fn law_small_naturals_are_exact(n: nat)
    requires
        0 < n < 2 * MANTISSA_UNIT,
    ensures
        ({
            let bits = nearest_double_bits(n);
            let x = bits / MANTISSA_UNIT;
            let m = bits % MANTISSA_UNIT + MANTISSA_UNIT;
            &&& 1023 <= x <= 1075
            &&& m == n * pow2((1075 - x) as nat)
        }),
{
    lemma_double_to_52(n, 0);
    let (m, up) = double_to_52(n, 0);
    let x = (1075 - up) as nat;
    let bits = x * MANTISSA_UNIT + (m - MANTISSA_UNIT);
    assert(bits / MANTISSA_UNIT as int == x && bits % MANTISSA_UNIT as int == m - MANTISSA_UNIT)
        by {
        vstd::arithmetic::div_mod::lemma_fundamental_div_mod_converse(
            bits as int,
            MANTISSA_UNIT as int,
            x as int,
            (m - MANTISSA_UNIT) as int,
        );
    }
    assert(bits < 0x1_0000_0000_0000_0000) by (nonlinear_arith)
        requires
            bits == x * MANTISSA_UNIT + (m - MANTISSA_UNIT),
            x <= 1075,
            m < 2 * MANTISSA_UNIT,
            MANTISSA_UNIT == 0x10_0000_0000_0000,
    ;
}

/// The numbers zero and one.
pub proof fn law_zero_and_one()
    ensures
        nearest_double_bits(0) == 0,
        nearest_double_bits(1) == ONE_BITS,
{
    lemma_double_to_52(1, 0);
    lemma2_to64_rest();
    let (m, up) = double_to_52(1, 0);
    if up < 52 {
        vstd::arithmetic::power2::lemma_pow2_strictly_increases(up, 52);
    }
}

/// Natural numbers below two to the power 53 compare as doubles as they
/// compare as numbers.
pub proof fn law_small_naturals_keep_their_order(a: nat, b: nat)
    requires
        a < b < 2 * MANTISSA_UNIT,
    ensures
        (Number { bits: nearest_double_bits(a) }).below(Number { bits: nearest_double_bits(b) }),
        !(Number { bits: nearest_double_bits(b) }).below(Number { bits: nearest_double_bits(a) }),
        !(Number { bits: nearest_double_bits(a) }).same_value(
            Number { bits: nearest_double_bits(b) },
        ),
{
    law_small_naturals_are_exact(b);
    let bb = nearest_double_bits(b);
    let xb = bb / MANTISSA_UNIT;
    let mb = bb % MANTISSA_UNIT + MANTISSA_UNIT;
    assert(bb == xb * MANTISSA_UNIT + (mb - MANTISSA_UNIT)) by {
        vstd::arithmetic::div_mod::lemma_fundamental_div_mod(bb as int, MANTISSA_UNIT as int);
    }
    if a == 0 {
        assert(bb >= 1023 * MANTISSA_UNIT) by (nonlinear_arith)
            requires
                bb == xb * MANTISSA_UNIT + (mb - MANTISSA_UNIT),
                xb >= 1023,
                mb >= MANTISSA_UNIT,
        ;
    } else {
        law_small_naturals_are_exact(a);
        let ba = nearest_double_bits(a);
        let xa = ba / MANTISSA_UNIT;
        let ma = ba % MANTISSA_UNIT + MANTISSA_UNIT;
        assert(ba == xa * MANTISSA_UNIT + (ma - MANTISSA_UNIT)) by {
            vstd::arithmetic::div_mod::lemma_fundamental_div_mod(ba as int, MANTISSA_UNIT as int);
        }
        let ua = (1075 - xa) as nat;
        let ub = (1075 - xb) as nat;
        vstd::arithmetic::power2::lemma_pow2_pos(ua);
        if xa > xb {
            // then b is scaled by more than a, and its mantissa would be too large
            vstd::arithmetic::power2::lemma_pow2_adds((ub - ua) as nat, ua);
            if ub - ua > 1 {
                vstd::arithmetic::power2::lemma_pow2_strictly_increases(1, (ub - ua) as nat);
            }
            lemma2_to64();
            assert(false) by (nonlinear_arith)
                requires
                    ma == a * pow2(ua),
                    mb == b * pow2(ub),
                    pow2(ub) == pow2((ub - ua) as nat) * pow2(ua),
                    pow2((ub - ua) as nat) >= 2,
                    a < b,
                    ma >= MANTISSA_UNIT,
                    mb < 2 * MANTISSA_UNIT,
                    pow2(ua) > 0,
            ;
        } else if xa == xb {
            assert(ma < mb) by (nonlinear_arith)
                requires
                    ma == a * pow2(ua),
                    mb == b * pow2(ua),
                    a < b,
                    pow2(ua) > 0,
            ;
        } else {
            assert(ba < bb) by (nonlinear_arith)
                requires
                    ba == xa * MANTISSA_UNIT + (ma - MANTISSA_UNIT),
                    bb == xb * MANTISSA_UNIT + (mb - MANTISSA_UNIT),
                    xa < xb,
                    ma < 2 * MANTISSA_UNIT,
                    mb >= MANTISSA_UNIT,
            ;
        }
    }
    assert(bb <= 1075 * MANTISSA_UNIT + MANTISSA_UNIT) by (nonlinear_arith)
        requires
            bb == xb * MANTISSA_UNIT + (mb - MANTISSA_UNIT),
            xb <= 1075,
            mb < 2 * MANTISSA_UNIT,
    ;
}


proof fn lemma_halve_divides(q0: nat, s0: bool, e0: nat)
    ensures
        ({
            let (q, s, e) = halve_to_54(q0, s0, e0);
            &&& e >= e0
            &&& q == q0 / pow2((e - e0) as nat)
            &&& s == (s0 || q0 % pow2((e - e0) as nat) != 0)
        }),
    decreases q0,
{
    lemma2_to64();
    if q0 >= 2 * 2 * MANTISSA_UNIT {
        lemma_halve_divides(q0 / 2, s0 || q0 % 2 == 1, e0 + 1);
        let (q, s, e) = halve_to_54(q0 / 2, s0 || q0 % 2 == 1, e0 + 1);
        let k = (e - e0 - 1) as nat;
        lemma_pow2_unfold(k + 1);
        vstd::arithmetic::power2::lemma_pow2_pos(k);
        vstd::arithmetic::div_mod::lemma_div_denominator(q0 as int, 2, pow2(k) as int);
        vstd::arithmetic::div_mod::lemma_mod_breakdown(q0 as int, 2, pow2(k) as int);
        assert((e - e0) as nat == k + 1);
        let whole = pow2(k + 1) as int;
        assert(whole == 2 * pow2(k));
        assert((q0 as int / 2) / (pow2(k) as int) == q0 as int / whole);
        assert(q0 as int % whole == 2 * ((q0 as int / 2) % (pow2(k) as int)) + q0 as int % 2);
        assert(halve_to_54(q0, s0, e0) == (q, s, e));
        assert(q == q0 / pow2((e - e0) as nat));
        assert(q0 % pow2((e - e0) as nat) == q0 as int % whole);
        assert(s == (s0 || q0 % pow2((e - e0) as nat) != 0));
    } else {
        assert(halve_to_54(q0, s0, e0) == (q0, s0, e0));
        assert(pow2(0) == 1);
        assert(q0 == q0 / pow2(0));
        assert(q0 % pow2(0) == 0);
    }
}

/// The value of a double that is not negative and whose exponent field is
/// large enough for all its mantissa bits to weigh at least one: the mantissa,
/// with its leading bit, times two to the power of the exponent.
pub open spec fn integral_value(bits: u64) -> nat {
    ((bits % MANTISSA_UNIT + MANTISSA_UNIT) * pow2((bits / MANTISSA_UNIT - 1075) as nat)) as nat
}

/// A natural number from two to the power 53 on becomes the double nearest to
/// it, where that is finite. Around `n` the doubles are `2 * half` apart; the
/// double for `n` is at most `half` away from `n`, and where it is exactly
/// `half` away (so that another double is as near) its mantissa is even.
pub proof fn law_large_naturals_round_to_nearest(n: nat)
    requires
        n >= 2 * MANTISSA_UNIT,
        nearest_double_bits(n) != INFINITY_BITS,
    ensures
        ({
            let bits = nearest_double_bits(n);
            let half = pow2(halve_to_54(n, false, 0).2);
            let value = integral_value(bits);
            &&& bits / MANTISSA_UNIT >= 1076
            &&& 2 * MANTISSA_UNIT * half <= n < 4 * MANTISSA_UNIT * half
            &&& value - n <= half
            &&& n - value <= half
            &&& (value - n == half || n - value == half) ==> (value / (2 * half)) % 2 == 0
        }),
{
    lemma_halve_divides(n, false, 0);
    lemma_halve_counts(n, false, 0);
    let (q, sticky, down) = halve_to_54(n, false, 0);
    let half = pow2(down);
    vstd::arithmetic::power2::lemma_pow2_pos(down);
    vstd::arithmetic::div_mod::lemma_fundamental_div_mod(n as int, half as int);
    let r = n % half;
    let mantissa = q / 2;
    let guard = q % 2;
    let round_up = guard == 1 && (sticky || mantissa % 2 == 1);
    let rounded: nat = if round_up {
        mantissa + 1
    } else {
        mantissa
    };
    let carry = rounded == 2 * MANTISSA_UNIT;
    let m: nat = if carry {
        MANTISSA_UNIT as nat
    } else {
        rounded
    };
    let x: nat = if carry {
        1023 + 52 + down + 2
    } else {
        1023 + 52 + down + 1
    };
    let bits = nearest_double_bits(n);
    assert(bits == encode(x, m));
    assert(x < 2047);
    let sum = x * MANTISSA_UNIT + (m - MANTISSA_UNIT);
    assert(sum < 0x1_0000_0000_0000_0000) by (nonlinear_arith)
        requires
            sum == x * MANTISSA_UNIT + (m - MANTISSA_UNIT),
            x < 2047,
            MANTISSA_UNIT <= m < 2 * MANTISSA_UNIT,
            MANTISSA_UNIT == 0x10_0000_0000_0000,
    ;
    assert(bits == sum);
    vstd::arithmetic::div_mod::lemma_fundamental_div_mod_converse(
        sum as int,
        MANTISSA_UNIT as int,
        x as int,
        (m - MANTISSA_UNIT) as int,
    );
    assert(bits / MANTISSA_UNIT == x && bits % MANTISSA_UNIT == m - MANTISSA_UNIT);
    let scale = pow2((x - 1075) as nat);
    let value = integral_value(bits);
    assert(value == m * scale);
    lemma_pow2_unfold(down + 1);
    lemma_pow2_unfold(down + 2);
    assert(value == rounded * (2 * half)) by (nonlinear_arith)
        requires
            value == m * scale,
            carry ==> m == MANTISSA_UNIT && rounded == 2 * MANTISSA_UNIT && scale == 4 * half,
            !carry ==> m == rounded && scale == 2 * half,
    ;
    assert(n == mantissa * (2 * half) + guard * half + r) by (nonlinear_arith)
        requires
            n == half * q + r,
            q == 2 * mantissa + guard,
    ;
    assert(2 * MANTISSA_UNIT * half <= n < 4 * MANTISSA_UNIT * half) by (nonlinear_arith)
        requires
            n == half * q + r,
            0 <= r < half,
            2 * MANTISSA_UNIT <= q < 4 * MANTISSA_UNIT,
    ;
    assert(value - n <= half && n - value <= half && ((value - n == half || n - value == half)
        ==> rounded % 2 == 0)) by (nonlinear_arith)
        requires
            value == rounded * (2 * half),
            n == mantissa * (2 * half) + guard * half + r,
            0 <= r < half,
            guard == 0 || guard == 1,
            sticky == (r != 0),
            round_up == (guard == 1 && (sticky || mantissa % 2 == 1)),
            rounded == if round_up {
                mantissa + 1
            } else {
                mantissa
            },
    ;
    assert(value / (2 * half) == rounded) by {
        vstd::arithmetic::div_mod::lemma_fundamental_div_mod_converse(
            value as int,
            (2 * half) as int,
            rounded as int,
            0,
        );
    }
}


/// The value that a natural number from two to the power 53 on is rounded
/// to: its 53 leading bits, rounded to the nearest with ties to the even,
/// at their weight.
pub open spec fn rounded_value(n: nat) -> nat {
    let (q, sticky, down) = halve_to_54(n, false, 0);
    let mantissa = q / 2;
    let round_up = q % 2 == 1 && (sticky || mantissa % 2 == 1);
    let rounded = if round_up {
        mantissa + 1
    } else {
        mantissa
    };
    rounded * pow2(down + 1)
}

/// A natural number becomes infinity exactly where rounding takes it to two
/// to the power 1024 or beyond, which no finite double holds.
pub proof fn law_overflow_gives_infinity(n: nat)
    requires
        n >= 2 * MANTISSA_UNIT,
    ensures
        nearest_double_bits(n) == INFINITY_BITS <==> rounded_value(n) >= pow2(1024),
        nearest_double_bits(n) != INFINITY_BITS ==> integral_value(nearest_double_bits(n))
            == rounded_value(n),
{
    lemma_halve_counts(n, false, 0);
    let (q, sticky, down) = halve_to_54(n, false, 0);
    let mantissa = q / 2;
    let round_up = q % 2 == 1 && (sticky || mantissa % 2 == 1);
    let rounded: nat = if round_up {
        mantissa + 1
    } else {
        mantissa
    };
    let carry = rounded == 2 * MANTISSA_UNIT;
    let m: nat = if carry {
        MANTISSA_UNIT as nat
    } else {
        rounded
    };
    let x: nat = if carry {
        1023 + 52 + down + 2
    } else {
        1023 + 52 + down + 1
    };
    let bits = nearest_double_bits(n);
    assert(bits == encode(x, m));
    lemma2_to64_rest();
    lemma_pow2_unfold(down + 2);
    let weight = pow2(down + 1);
    vstd::arithmetic::power2::lemma_pow2_pos(down + 1);
    // the rounded value is m times the weight of its lowest bit
    let scale = pow2((x - 1075) as nat);
    assert(rounded_value(n) == m * scale) by (nonlinear_arith)
        requires
            rounded_value(n) == rounded * weight,
            carry ==> m == MANTISSA_UNIT && rounded == 2 * MANTISSA_UNIT && scale == 2 * weight,
            !carry ==> m == rounded && scale == weight,
    ;
    // 2^1024 is 2^52 times 2^972, and m lies from 2^52 up to 2^53
    vstd::arithmetic::power2::lemma_pow2_adds(52, 972);
    vstd::arithmetic::power2::lemma_pow2_pos((x - 1075) as nat);
    if x >= 2047 {
        if x - 1075 > 972 {
            vstd::arithmetic::power2::lemma_pow2_strictly_increases(972, (x - 1075) as nat);
        }
        assert(m * scale >= pow2(1024)) by (nonlinear_arith)
            requires
                m >= MANTISSA_UNIT,
                scale >= pow2(972),
                pow2(1024) == pow2(52) * pow2(972),
                pow2(52) == MANTISSA_UNIT,
        ;
    } else {
        lemma_pow2_unfold(972);
        if x - 1075 < 971 {
            vstd::arithmetic::power2::lemma_pow2_strictly_increases((x - 1075) as nat, 971);
        }
        assert(m * scale < pow2(1024)) by (nonlinear_arith)
            requires
                m < 2 * MANTISSA_UNIT,
                0 < scale <= pow2(971),
                pow2(972) == 2 * pow2(971),
                pow2(1024) == pow2(52) * pow2(972),
                pow2(52) == MANTISSA_UNIT,
        ;
        let sum = x * MANTISSA_UNIT + (m - MANTISSA_UNIT);
        assert(sum < 0x1_0000_0000_0000_0000) by (nonlinear_arith)
            requires
                sum == x * MANTISSA_UNIT + (m - MANTISSA_UNIT),
                x < 2047,
                MANTISSA_UNIT <= m < 2 * MANTISSA_UNIT,
                MANTISSA_UNIT == 0x10_0000_0000_0000,
        ;
        vstd::arithmetic::div_mod::lemma_fundamental_div_mod_converse(
            sum as int,
            MANTISSA_UNIT as int,
            x as int,
            (m - MANTISSA_UNIT) as int,
        );
        assert(bits == sum);
        assert(bits != INFINITY_BITS) by {
            assert(bits / MANTISSA_UNIT == x);
        }
    }
}

} // verus!
