use vstd::prelude::*;

verus! {

/// Number of fraction digits that an `Amount` keeps exactly.
pub const FRACTION_DIGITS: u32 = 8;

/// `10` raised to `n`.
pub open spec fn pow10(n: nat) -> int
    decreases n,
{
    if n == 0 {
        1
    } else {
        10 * pow10((n - 1) as nat)
    }
}

pub open spec fn fits_i128(v: int) -> bool {
    i128::MIN <= v <= i128::MAX
}

pub proof fn lemma_pow10_positive(n: nat)
    ensures
        pow10(n) > 0,
    decreases n,
{
    if n > 0 {
        lemma_pow10_positive((n - 1) as nat);
    }
}

pub proof fn lemma_pow10_one()
    ensures
        pow10(1) == 10,
{
    assert(pow10(0) == 1);
}

/// `10^(a+b) == 10^a * 10^b`.
pub proof fn lemma_pow10_add(a: nat, b: nat)
    ensures
        pow10(a + b) == pow10(a) * pow10(b),
    decreases a,
{
    if a > 0 {
        lemma_pow10_add((a - 1) as nat, b);
        assert(pow10(a + b) == 10 * pow10((a - 1 + b) as nat));
        assert(10 * (pow10((a - 1) as nat) * pow10(b)) == (10 * pow10((a - 1) as nat)) * pow10(b))
            by (nonlinear_arith);
    }
}

/// An exact fixed-point decimal: a whole number of `10^-FRACTION_DIGITS` units.
/// Sums and differences are exact; an operation whose exact result does not fit
/// reports so instead of rounding.
#[derive(Clone, Copy, Debug, PartialEq, Eq, Structural)]
pub struct Amount {
    units: i128,
}

impl Amount {
    /// The value, counted in `10^-FRACTION_DIGITS` units.
    pub closed spec fn value(self) -> int {
        self.units as int
    }

    pub broadcast proof fn lemma_value_fits(self)
        ensures
            fits_i128(#[trigger] self.value()),
    {
    }

    pub fn zero() -> (r: Amount)
        ensures
            r.value() == 0,
    {
        Amount { units: 0 }
    }

    /// The amount of `units` times `10^-FRACTION_DIGITS`.
    pub fn from_units(units: i128) -> (r: Amount)
        ensures
            r.value() == units,
    {
        Amount { units }
    }

    pub fn units(&self) -> (r: i128)
        ensures
            r == self.value(),
    {
        self.units
    }

    /// The amount `mantissa * 10^-scale`, if it is a whole number of units that fits;
    /// nothing is ever rounded.
    pub fn from_parts(mantissa: i128, scale: u32) -> (r: Option<Amount>)
        ensures
            scale <= FRACTION_DIGITS ==> {
                &&& r is Some <==> fits_i128(mantissa * pow10((FRACTION_DIGITS - scale) as nat))
                &&& r is Some ==> r->0.value() == mantissa * pow10(
                    (FRACTION_DIGITS - scale) as nat,
                )
            },
            scale > FRACTION_DIGITS ==> {
                &&& r is Some <==> (mantissa as int) % pow10((scale - FRACTION_DIGITS) as nat) == 0
                &&& r is Some ==> r->0.value() * pow10((scale - FRACTION_DIGITS) as nat)
                    == mantissa
            },
    {
        if scale <= FRACTION_DIGITS {
            let mut cur: i128 = mantissa;
            let mut i: u32 = scale;
            while i < FRACTION_DIGITS
                invariant
                    scale <= i <= FRACTION_DIGITS,
                    cur == mantissa * pow10((i - scale) as nat),
                decreases FRACTION_DIGITS - i,
            {
                proof {
                    lemma_pow10_positive((FRACTION_DIGITS - scale) as nat);
                    lemma_pow10_add((i + 1 - scale) as nat, (FRACTION_DIGITS - i - 1) as nat);
                    lemma_pow10_add((i - scale) as nat, 1);
                    lemma_pow10_one();
                    let k = (i - scale) as nat;
                    assert(mantissa * pow10(k + 1) == (mantissa * pow10(k)) * 10)
                        by (nonlinear_arith)
                        requires
                            pow10(k + 1) == pow10(k) * 10,
                    ;
                }
                match cur.checked_mul(10) {
                    Some(next) => {
                        cur = next;
                    },
                    None => {
                        proof {
                            lemma_not_fits_scaled(
                                mantissa as int,
                                (i + 1 - scale) as nat,
                                (FRACTION_DIGITS - i - 1) as nat,
                            );
                        }
                        return None;
                    },
                }
                i = i + 1;
            }
            Some(Amount { units: cur })
        } else {
            let mut cur: i128 = mantissa;
            let mut i: u32 = FRACTION_DIGITS;
            while i < scale
                invariant
                    FRACTION_DIGITS <= i <= scale,
                    cur * pow10((i - FRACTION_DIGITS) as nat) == mantissa,
                decreases scale - i,
            {
                let k: Ghost<nat> = Ghost((i - FRACTION_DIGITS) as nat);
                proof {
                    lemma_pow10_positive(k@);
                    lemma_pow10_add(k@, 1);
                    lemma_pow10_one();
                }
                if cur == 0 {
                    proof {
                        lemma_zero_divisible((scale - FRACTION_DIGITS) as nat);
                    }
                    return Some(Amount { units: 0 });
                }
                let rem = cur.checked_rem_euclid(10).unwrap();
                if rem != 0 {
                    proof {
                        lemma_not_divisible(cur as int, k@, (scale - FRACTION_DIGITS) as nat);
                    }
                    return None;
                }
                let q = cur.checked_div_euclid(10).unwrap();
                proof {
                    assert(cur == q * 10);
                    assert(q * pow10(k@ + 1) == q * (pow10(k@) * 10));
                    assert(q * (pow10(k@) * 10) == (q * 10) * pow10(k@)) by (nonlinear_arith);
                }
                cur = q;
                i = i + 1;
            }
            proof {
                lemma_pow10_positive((scale - FRACTION_DIGITS) as nat);
                assert((mantissa as int) % pow10((scale - FRACTION_DIGITS) as nat) == 0)
                    by (nonlinear_arith)
                    requires
                        cur * pow10((scale - FRACTION_DIGITS) as nat) == mantissa,
                        pow10((scale - FRACTION_DIGITS) as nat) > 0,
                ;
            }
            Some(Amount { units: cur })
        }
    }

    /// The exact sum, if it fits.
    pub fn checked_add(self, other: Amount) -> (r: Option<Amount>)
        ensures
            r is Some <==> fits_i128(self.value() + other.value()),
            r is Some ==> r->0.value() == self.value() + other.value(),
    {
        match self.units.checked_add(other.units) {
            Some(units) => Some(Amount { units }),
            None => None,
        }
    }

    /// The exact difference, if it fits.
    pub fn checked_sub(self, other: Amount) -> (r: Option<Amount>)
        ensures
            r is Some <==> fits_i128(self.value() - other.value()),
            r is Some ==> r->0.value() == self.value() - other.value(),
    {
        match self.units.checked_sub(other.units) {
            Some(units) => Some(Amount { units }),
            None => None,
        }
    }

    pub fn gt(&self, other: &Amount) -> (r: bool)
        ensures
            r == (self.value() > other.value()),
    {
        self.units > other.units
    }
}

proof fn lemma_not_fits_scaled(m: int, a: nat, b: nat)
    requires
        !fits_i128(m * pow10(a)),
    ensures
        !fits_i128(m * pow10(a + b)),
{
    lemma_pow10_positive(b);
    lemma_pow10_add(a, b);
    let x = m * pow10(a);
    assert(m * pow10(a + b) == x * pow10(b)) by (nonlinear_arith)
        requires
            pow10(a + b) == pow10(a) * pow10(b),
            x == m * pow10(a),
    ;
    if x > 0 {
        assert(x * pow10(b) >= x) by (nonlinear_arith)
            requires
                x > 0,
                pow10(b) > 0,
        ;
    } else {
        assert(x * pow10(b) <= x) by (nonlinear_arith)
            requires
                x <= 0,
                pow10(b) > 0,
        ;
    }
}

proof fn lemma_zero_divisible(n: nat)
    ensures
        0int % pow10(n) == 0,
{
    lemma_pow10_positive(n);
}

/// If `c % 10 != 0` and `k < n`, then `c * 10^k` is not a multiple of `10^n`.
proof fn lemma_not_divisible(c: int, k: nat, n: nat)
    requires
        k < n,
        c % 10 != 0,
    ensures
        (c * pow10(k)) % pow10(n) != 0,
{
    lemma_pow10_positive(k);
    lemma_pow10_positive((n - k - 1) as nat);
    lemma_pow10_add(k, (n - k) as nat);
    lemma_pow10_add(1, (n - k - 1) as nat);
    lemma_pow10_one();
    let pk = pow10(k);
    let d = pow10((n - k - 1) as nat);
    assert(pow10(n) == pk * (10 * d));
    assert(pk * (10 * d) > 0) by (nonlinear_arith)
        requires
            pk > 0,
            d > 0,
    ;
    if (c * pk) % pow10(n) == 0 {
        let q = (c * pk) / pow10(n);
        assert(c * pk == q * (pk * (10 * d))) by (nonlinear_arith)
            requires
                (c * pk) % (pk * (10 * d)) == 0,
                pk * (10 * d) > 0,
                q == (c * pk) / (pk * (10 * d)),
        ;
        assert(c == (q * d) * 10) by (nonlinear_arith)
            requires
                c * pk == q * (pk * (10 * d)),
                pk > 0,
        ;
        assert(c % 10 == 0) by (nonlinear_arith)
            requires
                c == (q * d) * 10,
        ;
    }
}

} // verus!
