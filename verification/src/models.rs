//! The observation model: one price sample with its trust metadata.
//!
//! Prices and confidence widths are fixed-point decimals counted in ticks of
//! 10^-9 units, so every rule of the library is integer arithmetic.

use vstd::prelude::*;
use vstd::arithmetic::power::pow;

verus! {

/// Number of decimal places an amount carries.
pub const AMOUNT_DECIMALS: u32 = 9;

/// Number of ticks in one whole unit.
pub const TICKS_PER_UNIT: i64 = 1_000_000_000;

/// A price, or the width of the interval around it.
#[derive(Clone, Copy, Debug, PartialEq, Eq, Structural)]
pub enum Amount {
    /// A finite value in ticks.
    Finite(i64),
    /// Anything that is not a finite number of ticks: not a number at all,
    /// an infinity, or a magnitude beyond the range of ticks.
    NonFinite,
}

impl View for Amount {
    type V = Option<int>;

    /// The number of ticks, where there is one.
    open spec fn view(&self) -> Option<int> {
        match *self {
            Amount::Finite(t) => Some(t as int),
            Amount::NonFinite => None,
        }
    }
}

/// The bit that holds the sign of a binary64 number.
pub const BINARY64_SIGN: u64 = 0x8000_0000_0000_0000;

/// Two to the number of fraction bits of a binary64 number.
pub const BINARY64_FRACTION: u64 = 0x10_0000_0000_0000;

/// `n` divided by two to the `places`, rounded to the nearest whole number,
/// a half upward.
pub open spec fn halved(n: int, places: nat) -> int {
    if places == 0 {
        n
    } else {
        (n + pow(2, (places - 1) as nat)) / pow(2, places)
    }
}

/// The ticks of the IEEE 754 binary64 number with the bit pattern `bits`,
/// rounded to the nearest tick, a half away from zero; `None` for a NaN or
/// an infinity, and where the ticks are beyond 64 bits.
pub open spec fn binary64_ticks(bits: u64) -> Option<int> {
    let negative = bits >= BINARY64_SIGN;
    let rest = if negative {
        bits - BINARY64_SIGN
    } else {
        bits as int
    };
    let exponent = rest / BINARY64_FRACTION as int;
    let fraction = rest % BINARY64_FRACTION as int;
    if exponent == 2047 {
        None
    } else {
        // The number is `significand` times two to the `power`.
        let significand = if exponent == 0 {
            fraction
        } else {
            fraction + BINARY64_FRACTION
        };
        let power = if exponent == 0 {
            -1074
        } else {
            exponent - 1075
        };
        let scaled = significand * TICKS_PER_UNIT;
        let size = if power >= 0 {
            scaled * pow(2, power as nat)
        } else {
            halved(scaled, (-power) as nat)
        };
        let ticks = if negative {
            -size
        } else {
            size
        };
        if i64::MIN <= ticks <= i64::MAX {
            Some(ticks)
        } else {
            None
        }
    }
}

/// Halving to the nearest is halving downward, then adding the last bit
/// that fell off.
proof fn lemma_halved(n: int, places: nat)
    requires
        0 <= n,
        places >= 1,
    ensures
        halved(n, places) == n / pow(2, places) + (n / pow(2, (places - 1) as nat)) % 2,
{
    let h = pow(2, (places - 1) as nat);
    vstd::arithmetic::power::lemma_pow_positive(2, (places - 1) as nat);
    vstd::arithmetic::power::lemma_pow_adds(2, (places - 1) as nat, 1);
    vstd::arithmetic::power::lemma_pow1(2);
    assert(pow(2, places) == h * 2);
    let d = h * 2;
    let q = n / d;
    let r = n % d;
    vstd::arithmetic::div_mod::lemma_fundamental_div_mod(n, d);
    vstd::arithmetic::div_mod::lemma_mod_bound(n, d);
    if r < h {
        assert(n == (2 * q) * h + r && n + h == q * d + (r + h)) by (nonlinear_arith)
            requires
                n == d * q + r,
                d == h * 2,
        ;
        vstd::arithmetic::div_mod::lemma_fundamental_div_mod_converse(n, h, 2 * q, r);
        vstd::arithmetic::div_mod::lemma_fundamental_div_mod_converse(n + h, d, q, r + h);
    } else {
        assert(n == (2 * q + 1) * h + (r - h) && n + h == (q + 1) * d + (r - h)) by (nonlinear_arith)
            requires
                n == d * q + r,
                d == h * 2,
        ;
        vstd::arithmetic::div_mod::lemma_fundamental_div_mod_converse(n, h, 2 * q + 1, r - h);
        vstd::arithmetic::div_mod::lemma_fundamental_div_mod_converse(n + h, d, q + 1, r - h);
    }
}

/// What is below a power of two halves to nothing by every higher power.
proof fn lemma_halved_to_zero(n: int, seen: nat, places: nat)
    requires
        0 <= n,
        seen < places,
        n / pow(2, seen) == 0,
    ensures
        halved(n, places) == 0,
{
    let h = pow(2, (places - 1) as nat);
    vstd::arithmetic::power::lemma_pow_positive(2, seen);
    vstd::arithmetic::power::lemma_pow_positive(2, (places - 1) as nat);
    vstd::arithmetic::power::lemma_pow_increases(2, seen, (places - 1) as nat);
    vstd::arithmetic::power::lemma_pow_adds(2, (places - 1) as nat, 1);
    vstd::arithmetic::power::lemma_pow1(2);
    assert(pow(2, places) == h * 2);
    vstd::arithmetic::div_mod::lemma_small_div_converse(n, pow(2, seen));
    vstd::arithmetic::div_mod::lemma_basic_div(n + h, h * 2);
}

/// The ticks of a confidence width, from the ticks of its value as an
/// amount: the same, but a width above zero never becomes zero. Where the
/// value is finer than a tick it counts as one tick, so that what is valid
/// stays valid.
pub open spec fn width_ticks(above_zero: bool, ticks: Option<int>) -> Option<int> {
    if above_zero && ticks == Some(0int) {
        Some(1)
    } else {
        ticks
    }
}

/// Whether the binary64 number with the bit pattern `bits` is above zero;
/// a NaN of positive sign counts, and has no ticks.
pub open spec fn binary64_above_zero(bits: u64) -> bool {
    0 < bits < BINARY64_SIGN
}

/// `m` divided by `d`, rounded toward zero.
pub open spec fn div_toward_zero(m: int, d: int) -> int {
    if m >= 0 {
        m / d
    } else {
        -((-m) / d)
    }
}

/// The ticks of the decimal number `mantissa` times ten to the `exponent`,
/// rounded toward zero where a tick is too coarse for it; `None` where the
/// ticks are beyond 64 bits.
pub open spec fn decimal_ticks(mantissa: int, exponent: int) -> Option<int> {
    let shift = exponent + AMOUNT_DECIMALS;
    let ticks = if shift >= 0 {
        mantissa * pow(10, shift as nat)
    } else {
        div_toward_zero(mantissa, pow(10, (-shift) as nat))
    };
    if i64::MIN <= ticks <= i64::MAX {
        Some(ticks)
    } else {
        None
    }
}

/// Rounding toward zero by a power of ten and then by ten is rounding by the
/// next power of ten.
proof fn lemma_div_toward_zero_step(m: int, k: nat)
    ensures
        div_toward_zero(div_toward_zero(m, pow(10, k)), 10) == div_toward_zero(m, pow(10, k + 1)),
{
    let a = pow(10, k);
    vstd::arithmetic::power::lemma_pow_positive(10, k);
    vstd::arithmetic::power::lemma_pow_adds(10, k, 1);
    vstd::arithmetic::power::lemma_pow1(10);
    assert(pow(10, k + 1) == a * 10);
    if m >= 0 {
        vstd::arithmetic::div_mod::lemma_div_denominator(m, a, 10);
        vstd::arithmetic::div_mod::lemma_div_pos_is_pos(m, a);
    } else {
        vstd::arithmetic::div_mod::lemma_div_denominator(-m, a, 10);
        vstd::arithmetic::div_mod::lemma_div_pos_is_pos(-m, a);
    }
}

/// What rounds to zero by a power of ten rounds to zero by every higher one.
proof fn lemma_div_toward_zero_stays(m: int, k: nat, n: nat)
    requires
        k <= n,
        div_toward_zero(m, pow(10, k)) == 0,
    ensures
        div_toward_zero(m, pow(10, n)) == 0,
{
    vstd::arithmetic::power::lemma_pow_positive(10, k);
    vstd::arithmetic::power::lemma_pow_increases(10, k, n);
    let size = if m >= 0 {
        m
    } else {
        -m
    };
    vstd::arithmetic::div_mod::lemma_small_div_converse(size, pow(10, k));
    vstd::arithmetic::div_mod::lemma_basic_div(size, pow(10, n));
}

/// A product with a power of ten that is beyond 64 bits stays beyond them
/// under every higher power.
proof fn lemma_scaled_stays_out(m: int, k: nat, n: nat)
    requires
        k <= n,
        !(i64::MIN <= m * pow(10, k) <= i64::MAX),
    ensures
        !(i64::MIN <= m * pow(10, n) <= i64::MAX),
{
    vstd::arithmetic::power::lemma_pow_positive(10, k);
    vstd::arithmetic::power::lemma_pow_increases(10, k, n);
    let a = pow(10, k);
    let b = pow(10, n);
    assert(!(i64::MIN <= m * b <= i64::MAX)) by (nonlinear_arith)
        requires
            0 < a <= b,
            !(i64::MIN <= m * a <= i64::MAX),
    ;
}

impl Amount {
    /// Whether the amount is a finite number.
    pub fn is_finite(&self) -> (r: bool)
        ensures
            r == (self@ is Some),
    {
        match self {
            Amount::Finite(_) => true,
            Amount::NonFinite => false,
        }
    }

    /// The amount that the decimal number `mantissa` times ten to the
    /// `exponent` stands for: exact where a whole number of ticks, rounded
    /// toward zero where finer than a tick, and not finite where its ticks
    /// are beyond 64 bits.
    pub fn from_decimal(mantissa: i128, exponent: i32) -> (r: Amount)
        ensures
            r@ == decimal_ticks(mantissa as int, exponent as int),
    {
        let shift: i64 = exponent as i64 + AMOUNT_DECIMALS as i64;
        if shift >= 0 {
            if mantissa < i64::MIN as i128 || mantissa > i64::MAX as i128 {
                proof {
                    vstd::arithmetic::power::lemma_pow0(10);
                    lemma_scaled_stays_out(mantissa as int, 0, shift as nat);
                }
                return Amount::NonFinite;
            }
            let mut t: i128 = mantissa;
            let mut k: i64 = 0;
            proof {
                vstd::arithmetic::power::lemma_pow0(10);
            }
            while k < shift
                invariant
                    0 <= k <= shift,
                    shift == exponent + AMOUNT_DECIMALS,
                    t == mantissa * pow(10, k as nat),
                    i64::MIN <= t <= i64::MAX,
                decreases shift - k,
            {
                let next: i128 = t * 10;
                proof {
                    vstd::arithmetic::power::lemma_pow_adds(10, k as nat, 1);
                    vstd::arithmetic::power::lemma_pow1(10);
                    let a = pow(10, k as nat);
                    assert(mantissa * (a * 10) == (mantissa * a) * 10) by (nonlinear_arith);
                    assert(next == mantissa * pow(10, (k + 1) as nat));
                }
                if next < i64::MIN as i128 || next > i64::MAX as i128 {
                    proof {
                        assert(!(i64::MIN <= mantissa * pow(10, (k + 1) as nat) <= i64::MAX));
                        lemma_scaled_stays_out(mantissa as int, (k + 1) as nat, shift as nat);
                    }
                    return Amount::NonFinite;
                }
                t = next;
                k += 1;
            }
            Amount::Finite(t as i64)
        } else {
            let places: i64 = -shift;
            let mut t: i128 = mantissa;
            let mut k: i64 = 0;
            proof {
                vstd::arithmetic::power::lemma_pow0(10);
            }
            while k < places && t != 0
                invariant
                    0 <= k <= places,
                    t == div_toward_zero(mantissa as int, pow(10, k as nat)),
                decreases places - k,
            {
                proof {
                    lemma_div_toward_zero_step(mantissa as int, k as nat);
                }
                t = t / 10;
                k += 1;
            }
            proof {
                if k < places {
                    lemma_div_toward_zero_stays(mantissa as int, k as nat, places as nat);
                }
            }
            if t < i64::MIN as i128 || t > i64::MAX as i128 {
                Amount::NonFinite
            } else {
                Amount::Finite(t as i64)
            }
        }
    }

    /// The amount that the IEEE 754 binary64 number with the bit pattern
    /// `bits` stands for: its value to the nearest tick, and not finite for
    /// a NaN, an infinity or a value whose ticks are beyond 64 bits.
    pub fn from_f64_bits(bits: u64) -> (r: Amount)
        ensures
            r@ == binary64_ticks(bits),
    {
        let negative = bits >= BINARY64_SIGN;
        let rest: u64 = if negative {
            bits - BINARY64_SIGN
        } else {
            bits
        };
        let exponent: u64 = rest / BINARY64_FRACTION;
        let fraction: u64 = rest % BINARY64_FRACTION;
        if exponent == 2047 {
            return Amount::NonFinite;
        }
        if exponent >= 1075 {
            proof {
                let scaled = (fraction + BINARY64_FRACTION) * TICKS_PER_UNIT;
                let p = pow(2, (exponent - 1075) as nat);
                vstd::arithmetic::power::lemma_pow_positive(2, (exponent - 1075) as nat);
                assert(scaled * p >= scaled) by (nonlinear_arith)
                    requires
                        scaled >= 0,
                        p >= 1,
                ;
            }
            return Amount::NonFinite;
        }
        let significand: u64 = if exponent == 0 {
            fraction
        } else {
            fraction + BINARY64_FRACTION
        };
        let places: u64 = if exponent == 0 {
            1074
        } else {
            1075 - exponent
        };
        let scaled: u128 = significand as u128 * TICKS_PER_UNIT as u128;
        let mut t: u128 = scaled;
        let mut last: u128 = 0;
        let mut i: u64 = 0;
        proof {
            vstd::arithmetic::power::lemma_pow0(2);
        }
        while i < places && t != 0
            invariant
                0 <= i <= places,
                t == scaled as int / pow(2, i as nat),
                i >= 1 ==> last == (scaled as int / pow(2, (i - 1) as nat)) % 2,
                t <= scaled,
                last <= 1,
                scaled <= 0x20_0000_0000_0000 * TICKS_PER_UNIT,
            decreases places - i,
        {
            proof {
                vstd::arithmetic::power::lemma_pow_positive(2, i as nat);
                vstd::arithmetic::power::lemma_pow_adds(2, i as nat, 1);
                vstd::arithmetic::power::lemma_pow1(2);
                vstd::arithmetic::div_mod::lemma_div_denominator(
                    scaled as int,
                    pow(2, i as nat),
                    2,
                );
            }
            last = t % 2;
            t = t / 2;
            i += 1;
        }
        let size: u128 = if i < places {
            proof {
                lemma_halved_to_zero(scaled as int, i as nat, places as nat);
            }
            0
        } else {
            proof {
                lemma_halved(scaled as int, places as nat);
            }
            t + last
        };
        assert(size == halved(scaled as int, places as nat));
        if negative {
            if size > 0x8000_0000_0000_0000 {
                Amount::NonFinite
            } else if size == 0x8000_0000_0000_0000 {
                Amount::Finite(i64::MIN)
            } else {
                Amount::Finite(-(size as i64))
            }
        } else {
            if size > 0x7fff_ffff_ffff_ffff {
                Amount::NonFinite
            } else {
                Amount::Finite(size as i64)
            }
        }
    }

    /// The confidence width that the decimal number `mantissa` times ten to
    /// the `exponent` stands for: as `from_decimal`, but at least one tick
    /// where the number is above zero.
    pub fn width_from_decimal(mantissa: i128, exponent: i32) -> (r: Amount)
        ensures
            r@ == width_ticks(mantissa > 0, decimal_ticks(mantissa as int, exponent as int)),
    {
        match Self::from_decimal(mantissa, exponent) {
            Amount::Finite(t) => if t == 0 && mantissa > 0 {
                Amount::Finite(1)
            } else {
                Amount::Finite(t)
            },
            Amount::NonFinite => Amount::NonFinite,
        }
    }

    /// The confidence width that the binary64 number with the bit pattern
    /// `bits` stands for: as `from_f64_bits`, but at least one tick where
    /// the number is above zero.
    pub fn width_from_f64_bits(bits: u64) -> (r: Amount)
        ensures
            r@ == width_ticks(binary64_above_zero(bits), binary64_ticks(bits)),
    {
        match Self::from_f64_bits(bits) {
            Amount::Finite(t) => if t == 0 && 0 < bits && bits < BINARY64_SIGN {
                Amount::Finite(1)
            } else {
                Amount::Finite(t)
            },
            Amount::NonFinite => Amount::NonFinite,
        }
    }

    /// The ticks of a finite amount.
    pub fn ticks(&self) -> (r: Option<i64>)
        ensures
            match r {
                Some(t) => self@ == Some(t as int),
                None => self@ is None,
            },
    {
        match self {
            Amount::Finite(t) => Some(*t),
            Amount::NonFinite => None,
        }
    }

    /// Whether the amount is a finite number above zero.
    pub fn is_positive(&self) -> (r: bool)
        ensures
            r == (self@ matches Some(t) && t > 0),
    {
        match self {
            Amount::Finite(t) => *t > 0,
            Amount::NonFinite => false,
        }
    }
}

/// What an observation is, as mathematics: the view of a [`PriceData`].
pub struct Observation {
    pub symbol: Seq<char>,
    /// Ticks of the price; `None` where the price is not finite.
    pub price: Option<int>,
    /// Ticks of the confidence width; `None` where it is not finite.
    pub confidence: Option<int>,
    pub timestamp: int,
    pub source: Seq<char>,
}

impl Observation {
    /// Ticks of the price, where it is finite.
    pub open spec fn price_ticks(self) -> int {
        match self.price {
            Some(t) => t,
            None => 0,
        }
    }

    /// Ticks of the confidence width, where it is finite.
    pub open spec fn confidence_ticks(self) -> int {
        match self.confidence {
            Some(t) => t,
            None => 0,
        }
    }

    /// The price is a finite number, so the observation may enter a median.
    pub open spec fn has_finite_price(self) -> bool {
        self.price is Some
    }

    /// The price is finite and the confidence width is a finite number above
    /// zero, so the observation may enter a weighted mean.
    pub open spec fn is_weightable(self) -> bool {
        &&& self.price is Some
        &&& self.confidence matches Some(c) && c > 0
    }
}

/// One reported price for a symbol.
#[derive(Debug)]
pub struct PriceData {
    /// The asset the price is for.
    pub symbol: String,
    /// The asset's value.
    pub price: Amount,
    /// Width of the interval around `price`; smaller means more trusted.
    pub confidence: Amount,
    /// Seconds since the epoch.
    pub timestamp: i64,
    /// Where the observation comes from: a provider's name, or the tag of the
    /// policy that derived it.
    pub source: String,
}

impl View for PriceData {
    type V = Observation;

    open spec fn view(&self) -> Observation {
        Observation {
            symbol: self.symbol@,
            price: self.price@,
            confidence: self.confidence@,
            timestamp: self.timestamp as int,
            source: self.source@,
        }
    }
}

impl Clone for PriceData {
    fn clone(&self) -> (r: Self)
        ensures
            r@ == self@,
    {
        PriceData {
            symbol: self.symbol.clone(),
            price: self.price,
            confidence: self.confidence,
            timestamp: self.timestamp,
            source: self.source.clone(),
        }
    }
}

/// The observations a vector holds, in order.
pub open spec fn observations(prices: Seq<PriceData>) -> Seq<Observation> {
    prices.map_values(|p: PriceData| p@)
}

} // verus!
