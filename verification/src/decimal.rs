//! Exact decimal numbers, used for spot prices and the price threshold.

use vstd::prelude::*;


verus! {

/// Ten to the power `n`.
pub open spec fn pow10(n: nat) -> nat
    decreases n,
{
    if n == 0 {
        1
    } else {
        10 * pow10((n - 1) as nat)
    }
}

/// The number `(-1)^negative * magnitude / 10^scale`.
#[derive(Clone, Copy, Debug, PartialEq, Eq, Structural)]
pub struct Decimal {
    pub negative: bool,
    pub magnitude: u64,
    pub scale: u8,
}

impl Decimal {
    /// The signed numerator over `10^scale`.
    pub open spec fn numerator(self) -> int {
        if self.negative {
            -(self.magnitude as int)
        } else {
            self.magnitude as int
        }
    }

    /// `self < other` as rational numbers.
    pub open spec fn spec_lt(self, other: Decimal) -> bool {
        self.numerator() * pow10(other.scale as nat) < other.numerator() * pow10(self.scale as nat)
    }

    /// The number is greater than zero.
    pub open spec fn spec_positive(self) -> bool {
        self.numerator() > 0
    }

    /// Whether `self < other`, compared exactly.
    pub fn less_than(&self, other: &Decimal) -> (r: bool)
        ensures
            r == self.spec_lt(*other),
    {
        let na = self.negative && self.magnitude != 0;
        let nb = other.negative && other.magnitude != 0;
        proof {
            lemma_signed_scaled(self.negative, self.magnitude, pow10(other.scale as nat));
            lemma_signed_scaled(other.negative, other.magnitude, pow10(self.scale as nat));
            lemma_pow10_positive(other.scale as nat);
            lemma_pow10_positive(self.scale as nat);
        }
        if !na && !nb {
            magnitude_lt(self.magnitude, self.scale, other.magnitude, other.scale)
        } else if na && !nb {
            proof {
                assert(self.magnitude * pow10(other.scale as nat) > 0) by (nonlinear_arith)
                    requires
                        self.magnitude > 0,
                        pow10(other.scale as nat) > 0,
                ;
            }
            true
        } else if !na && nb {
            proof {
                assert(other.magnitude * pow10(self.scale as nat) > 0) by (nonlinear_arith)
                    requires
                        other.magnitude > 0,
                        pow10(self.scale as nat) > 0,
                ;
            }
            false
        } else {
            magnitude_lt(other.magnitude, other.scale, self.magnitude, self.scale)
        }
    }

    /// Whether the number is greater than zero.
    pub fn is_positive(&self) -> (r: bool)
        ensures
            r == self.spec_positive(),
    {
        !self.negative && self.magnitude > 0
    }
}

proof fn lemma_pow10_positive(n: nat)
    ensures
        pow10(n) >= 1,
    decreases n,
{
    if n > 0 {
        lemma_pow10_positive((n - 1) as nat);
    }
}

proof fn lemma_pow10_monotone(i: nat, j: nat)
    requires
        i <= j,
    ensures
        pow10(i) <= pow10(j),
    decreases j,
{
    if i < j {
        lemma_pow10_monotone(i, (j - 1) as nat);
        lemma_pow10_positive((j - 1) as nat);
    }
}

proof fn lemma_pow10_add(a: nat, b: nat)
    ensures
        pow10(a + b) == pow10(a) * pow10(b),
    decreases b,
{
    if b > 0 {
        lemma_pow10_add(a, (b - 1) as nat);
        assert(pow10((a + b) as nat) == 10 * pow10((a + b - 1) as nat));
        let x = pow10(a);
        let y = pow10((b - 1) as nat);
        assert(pow10(b) == 10 * y);
        assert(pow10((a + (b - 1)) as nat) == x * y);
        assert((a + (b - 1)) as nat == (a + b - 1) as nat);
        assert(10 * (x * y) == x * (10 * y)) by (nonlinear_arith);
        assert(pow10(a + b) == pow10(a) * pow10(b));
    } else {
        assert(a + b == a);
        assert(pow10(b) == 1);
        assert(pow10(a) * 1 == pow10(a));
    }
}

proof fn lemma_signed_scaled(negative: bool, magnitude: u64, p: nat)
    ensures
        (if negative { -(magnitude as int) } else { magnitude as int }) * p == if negative {
            -(magnitude * p)
        } else {
            magnitude * p
        },
        magnitude == 0 ==> magnitude * p == 0,
{
    assert((-(magnitude as int)) * p == -(magnitude * p)) by (nonlinear_arith);
    assert(magnitude == 0 ==> magnitude * p == 0) by (nonlinear_arith);
}

/// `10^n` as a machine integer, for `n <= 19`.
fn pow10_u128(n: u8) -> (r: u128)
    requires
        n <= 19,
    ensures
        r == pow10(n as nat),
{
    let mut r: u128 = 1;
    let mut i: u8 = 0;
    while i < n
        invariant
            i <= n <= 19,
            r == pow10(i as nat),
        decreases n - i,
    {
        proof {
            lemma_pow10_monotone(i as nat, 18);
            reveal_with_fuel(pow10, 19);
        }
        r = r * 10;
        i = i + 1;
    }
    r
}

proof fn lemma_large_power(m: u64, d: nat)
    requires
        m >= 1,
        d >= 20,
    ensures
        m * pow10(d) > u64::MAX,
{
    lemma_pow10_monotone(20, d);
    reveal_with_fuel(pow10, 21);
    assert(m * pow10(d) >= pow10(d)) by (nonlinear_arith)
        requires
            m >= 1,
    ;
}

/// `magnitude * 10^d` for `d <= 19`, which always fits in 128 bits.
fn scaled(magnitude: u64, d: u8) -> (r: u128)
    requires
        d <= 19,
    ensures
        r == magnitude * pow10(d as nat),
{
    let p = pow10_u128(d);
    proof {
        lemma_pow10_monotone(d as nat, 19);
        reveal_with_fuel(pow10, 20);
        assert(magnitude * p <= 0xffff_ffff_ffff_ffffu64 * 10_000_000_000_000_000_000nat)
            by (nonlinear_arith)
            requires
                magnitude <= 0xffff_ffff_ffff_ffffu64,
                p <= 10_000_000_000_000_000_000nat,
        ;
    }
    (magnitude as u128) * p
}

/// Whether `m * 10^d < other`.
fn times_pow10_below(m: u64, d: u8, other: u64) -> (r: bool)
    ensures
        r == (m * pow10(d as nat) < other),
{
    if m == 0 {
        proof {
            assert(m * pow10(d as nat) == 0) by (nonlinear_arith)
                requires
                    m == 0,
            ;
        }
        0 < other
    } else if d >= 20 {
        proof {
            lemma_large_power(m, d as nat);
        }
        false
    } else {
        scaled(m, d) < other as u128
    }
}

/// Whether `other < m * 10^d`.
fn below_times_pow10(other: u64, m: u64, d: u8) -> (r: bool)
    ensures
        r == (other < m * pow10(d as nat)),
{
    if m == 0 {
        proof {
            assert(m * pow10(d as nat) == 0) by (nonlinear_arith)
                requires
                    m == 0,
            ;
        }
        false
    } else if d >= 20 {
        proof {
            lemma_large_power(m, d as nat);
        }
        true
    } else {
        (other as u128) < scaled(m, d)
    }
}

proof fn lemma_cancel(x: int, y: int, p: int, q: int)
    requires
        p > 0,
    ensures
        (x * (p * q) < y * p) == (x * q < y),
        (x * p < y * (p * q)) == (x < y * q),
{
    assert((x * (p * q) < y * p) == (x * q < y)) by (nonlinear_arith)
        requires
            p > 0,
    ;
    assert((x * p < y * (p * q)) == (x < y * q)) by (nonlinear_arith)
        requires
            p > 0,
    ;
}

/// Whether `ma * 10^sb < mb * 10^sa`: the magnitudes `ma / 10^sa` and
/// `mb / 10^sb` compared over a common denominator.
fn magnitude_lt(ma: u64, sa: u8, mb: u64, sb: u8) -> (r: bool)
    ensures
        r == (ma * pow10(sb as nat) < mb * pow10(sa as nat)),
{
    proof {
        lemma_pow10_positive(sa as nat);
        lemma_pow10_positive(sb as nat);
    }
    if sa <= sb {
        let d = sb - sa;
        proof {
            lemma_pow10_add(sa as nat, d as nat);
            lemma_cancel(ma as int, mb as int, pow10(sa as nat) as int, pow10(d as nat) as int);
        }
        times_pow10_below(ma, d, mb)
    } else {
        let d = sa - sb;
        proof {
            lemma_pow10_add(sb as nat, d as nat);
            lemma_cancel(ma as int, mb as int, pow10(sb as nat) as int, pow10(d as nat) as int);
        }
        below_times_pow10(ma, mb, d)
    }
}

/// Whether `c` is an ASCII decimal digit.
pub open spec fn is_digit(c: char) -> bool {
    0x30 <= (c as u32) <= 0x39
}

/// The value of the ASCII digit `c`.
pub open spec fn digit_value(c: char) -> nat {
    ((c as u32) - 0x30) as nat
}

/// Left-to-right scan of the unsigned part of a decimal literal:
/// (no stray character, a point was seen, digit count, value of all digits,
/// digits after the point).
pub open spec fn scan_decimal(s: Seq<char>) -> (bool, bool, nat, nat, nat)
    decreases s.len(),
{
    if s.len() == 0 {
        (true, false, 0, 0, 0)
    } else {
        let prev = scan_decimal(s.drop_last());
        let c = s.last();
        if is_digit(c) {
            (prev.0, prev.1, prev.2 + 1, prev.3 * 10 + digit_value(c), if prev.1 {
                prev.4 + 1
            } else {
                prev.4
            })
        } else if c == '.' && !prev.1 {
            (prev.0, true, prev.2, prev.3, prev.4)
        } else {
            (false, prev.1, prev.2, prev.3, prev.4)
        }
    }
}

/// The decimal that the text `s` denotes: an optional sign, then digits with at
/// most one decimal point and at least one digit; `None` for any other text,
/// for digits whose value exceeds `u64::MAX` and for more than 255 digits after
/// the point.
pub open spec fn decimal_of_text(s: Seq<char>) -> Option<Decimal> {
    let signed = s.len() > 0 && (s[0] == '-' || s[0] == '+');
    let body = if signed {
        s.drop_first()
    } else {
        s
    };
    let sc = scan_decimal(body);
    if sc.0 && sc.2 >= 1 && sc.3 <= u64::MAX && sc.4 <= u8::MAX {
        Some(
            Decimal {
                negative: signed && s[0] == '-',
                magnitude: sc.3 as u64,
                scale: sc.4 as u8,
            },
        )
    } else {
        None
    }
}

/// Parses a decimal number such as `85.32`, `-4.5`, `+7`, `.5` or `12.`.
pub fn parse_decimal(s: &[char]) -> (r: Option<Decimal>)
    ensures
        r == decimal_of_text(s@),
{
    let n = s.len();
    let signed = n > 0 && (s[0] == '-' || s[0] == '+');
    let start: usize = if signed {
        1
    } else {
        0
    };
    let ghost body = if signed {
        s@.drop_first()
    } else {
        s@
    };
    let mut ok = true;
    let mut seen_dot = false;
    let mut count: usize = 0;
    let mut value: u64 = 0;
    let mut overflow = false;
    let mut frac: usize = 0;
    let mut i = start;
    while i < n
        invariant
            start <= i <= n == s@.len(),
            body == s@.subrange(start as int, n as int),
            ({
                let sc = scan_decimal(body.take(i - start));
                &&& ok == sc.0
                &&& seen_dot == sc.1
                &&& count == sc.2
                &&& !overflow ==> value == sc.3
                &&& overflow ==> sc.3 > u64::MAX
                &&& frac == sc.4
                &&& frac <= i
                &&& count <= i
            }),
        decreases n - i,
    {
        let c = s[i];
        proof {
            assert(body.take(i + 1 - start).drop_last() == body.take(i - start));
            assert(body.take(i + 1 - start).last() == c);
        }
        let code = c as u32;
        if 0x30 <= code && code <= 0x39 {
            let d = (code - 0x30) as u64;
            count = count + 1;
            if seen_dot {
                frac = frac + 1;
            }
            if !overflow {
                if value > (u64::MAX - d) / 10 {
                    overflow = true;
                } else {
                    value = value * 10 + d;
                }
            }
        } else if c == '.' && !seen_dot {
            seen_dot = true;
        } else {
            ok = false;
        }
        i = i + 1;
    }
    proof {
        assert(body.take(n - start) == body);
    }
    if ok && count >= 1 && !overflow && frac <= 255 {
        Some(Decimal { negative: signed && s[0] == '-', magnitude: value, scale: frac as u8 })
    } else {
        None
    }
}

} // verus!

verus! {

/// `spec_lt` orders decimals by value: it is irreflexive, asymmetric and
/// transitive, and any two decimals are equal in value or one is below the
/// other.
pub proof fn law_lt_is_strict_order(a: Decimal, b: Decimal, c: Decimal)
    ensures
        !a.spec_lt(a),
        a.spec_lt(b) ==> !b.spec_lt(a),
        a.spec_lt(b) && b.spec_lt(c) ==> a.spec_lt(c),
        a.spec_lt(b) || b.spec_lt(a) || a.numerator() * pow10(b.scale as nat) == b.numerator()
            * pow10(a.scale as nat),
{
    let pa = pow10(a.scale as nat);
    let pb = pow10(b.scale as nat);
    let pc = pow10(c.scale as nat);
    lemma_pow10_positive(a.scale as nat);
    lemma_pow10_positive(b.scale as nat);
    lemma_pow10_positive(c.scale as nat);
    let x = a.numerator();
    let y = b.numerator();
    let z = c.numerator();
    assert(x * pb < y * pa && y * pc < z * pb ==> x * pc < z * pa) by (nonlinear_arith)
        requires
            pa > 0,
            pb > 0,
            pc > 0,
    {
        if x * pb < y * pa && y * pc < z * pb {
            assert(x * pb * pc < y * pa * pc);
            assert(y * pc * pa < z * pb * pa);
            assert(x * pc * pb < z * pa * pb);
        }
    }
}

} // verus!
