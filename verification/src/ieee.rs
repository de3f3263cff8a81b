//! IEEE 754 numbers, held as their bit patterns.
//!
//! Configuration and sensor readings carry floating-point numbers. What the
//! gateway does with them here is compare them and print them, and both are
//! exact statements about the bit pattern.

use vstd::arithmetic::power::{lemma_pow0, lemma_pow_increases, pow};
use vstd::arithmetic::power2::{lemma_pow2_pos, pow2};
use vstd::prelude::*;

use crate::text::{
    all_digits, append_decimal, append_padded_decimal, decimal, digits_value,
    law_numerals_read_back, law_padded_numerals_read_back, padded_decimal,
};

verus! {

/// A double-precision number.
#[derive(Debug, Clone, Copy)]
pub struct Binary64 {
    pub bits: u64,
}

impl Binary64 {
    pub open spec fn is_nan(self) -> bool {
        self.bits % 0x8000_0000_0000_0000 > 0x7ff0_0000_0000_0000
    }

    /// Position on the number line: for numbers that are not NaN, `a < b`
    /// exactly when `a.rank() < b.rank()`; both zeros have rank 0.
    pub open spec fn rank(self) -> int {
        let magnitude = self.bits % 0x8000_0000_0000_0000;
        if self.bits >= 0x8000_0000_0000_0000 {
            -magnitude
        } else {
            magnitude as int
        }
    }

    pub open spec fn equals(self, other: Self) -> bool {
        !self.is_nan() && !other.is_nan() && self.rank() == other.rank()
    }

    pub open spec fn less(self, other: Self) -> bool {
        !self.is_nan() && !other.is_nan() && self.rank() < other.rank()
    }

    pub fn from_bits(bits: u64) -> (x: Self)
        ensures
            x.bits == bits,
    {
        Binary64 { bits }
    }

    pub fn to_bits(&self) -> (bits: u64)
        ensures
            bits == self.bits,
    {
        self.bits
    }

    fn not_nan(&self) -> (ok: bool)
        ensures
            ok == !self.is_nan(),
    {
        self.bits % 0x8000_0000_0000_0000 <= 0x7ff0_0000_0000_0000
    }

    fn exec_rank(&self) -> (rank: i64)
        ensures
            rank == self.rank(),
    {
        let magnitude: u64 = self.bits % 0x8000_0000_0000_0000;
        if self.bits >= 0x8000_0000_0000_0000 {
            -(magnitude as i64)
        } else {
            magnitude as i64
        }
    }

    /// `self < other`; false if either is NaN.
    pub fn less_than(&self, other: &Self) -> (r: bool)
        ensures
            r == self.less(*other),
    {
        self.not_nan() && other.not_nan() && self.exec_rank() < other.exec_rank()
    }

    /// `self >= other`; false if either is NaN.
    pub fn at_least(&self, other: &Self) -> (r: bool)
        ensures
            r == (self.equals(*other) || other.less(*self)),
    {
        self.not_nan() && other.not_nan() && self.exec_rank() >= other.exec_rank()
    }
}

impl PartialEq for Binary64 {
    fn eq(&self, other: &Self) -> (r: bool) {
        self.not_nan() && other.not_nan() && self.exec_rank() == other.exec_rank()
    }
}

impl vstd::std_specs::cmp::PartialEqSpecImpl for Binary64 {
    open spec fn obeys_eq_spec() -> bool {
        true
    }

    open spec fn eq_spec(&self, other: &Self) -> bool {
        self.equals(*other)
    }
}

/// A single-precision number.
#[derive(Debug, Clone, Copy)]
pub struct Binary32 {
    pub bits: u32,
}

impl Binary32 {
    pub open spec fn is_negative(self) -> bool {
        self.bits >= 0x8000_0000
    }

    pub open spec fn exponent_field(self) -> nat {
        (self.bits as nat / 0x80_0000) % 0x100
    }

    pub open spec fn fraction_field(self) -> nat {
        self.bits as nat % 0x80_0000
    }

    pub open spec fn is_nan(self) -> bool {
        self.exponent_field() == 0xff && self.fraction_field() != 0
    }

    pub open spec fn is_infinite(self) -> bool {
        self.exponent_field() == 0xff && self.fraction_field() == 0
    }

    /// The integer significand of a finite number: its absolute value is
    /// `significand * 2^exponent`.
    pub open spec fn significand(self) -> nat {
        if self.exponent_field() == 0 {
            self.fraction_field()
        } else {
            self.fraction_field() + 0x80_0000
        }
    }

    pub open spec fn exponent(self) -> int {
        if self.exponent_field() == 0 {
            -149
        } else {
            self.exponent_field() - 150
        }
    }

    pub open spec fn equals(self, other: Self) -> bool {
        &&& !self.is_nan()
        &&& !other.is_nan()
        &&& self.bits == other.bits || (self.bits % 0x8000_0000 == 0 && other.bits % 0x8000_0000
            == 0)
    }

    pub fn from_bits(bits: u32) -> (x: Self)
        ensures
            x.bits == bits,
    {
        Binary32 { bits }
    }

    pub fn to_bits(&self) -> (bits: u32)
        ensures
            bits == self.bits,
    {
        self.bits
    }

    fn not_nan(&self) -> (ok: bool)
        ensures
            ok == !self.is_nan(),
    {
        (self.bits / 0x80_0000) % 0x100 != 0xff || self.bits % 0x80_0000 == 0
    }
}

impl PartialEq for Binary32 {
    fn eq(&self, other: &Self) -> (r: bool) {
        self.not_nan() && other.not_nan() && (self.bits == other.bits || (self.bits % 0x8000_0000
            == 0 && other.bits % 0x8000_0000 == 0))
    }
}

impl vstd::std_specs::cmp::PartialEqSpecImpl for Binary32 {
    open spec fn obeys_eq_spec() -> bool {
        true
    }

    open spec fn eq_spec(&self, other: &Self) -> bool {
        self.equals(*other)
    }
}

/// `numerator / denominator` rounded to the nearest integer, a tie to the even one.
pub open spec fn rounded_quotient(numerator: nat, denominator: nat) -> nat {
    let below = numerator / denominator;
    let rest = numerator % denominator;
    if 2 * rest < denominator || (2 * rest == denominator && below % 2 == 0) {
        below
    } else {
        below + 1
    }
}

/// The absolute value of a finite number in units of `10^-places`, rounded to
/// the nearest unit with ties to even.
pub open spec fn in_decimal_units(x: Binary32, places: nat) -> nat {
    let scaled = x.significand() * pow(10, places) as nat;
    if x.exponent() >= 0 {
        scaled * pow2(x.exponent() as nat)
    } else {
        rounded_quotient(scaled, pow2((-x.exponent()) as nat))
    }
}

/// A number printed with exactly `places` digits after the decimal point.
pub open spec fn fixed_point(x: Binary32, places: nat) -> Seq<char> {
    if x.is_nan() {
        "NaN"@
    } else {
        let sign = if x.is_negative() {
            "-"@
        } else {
            ""@
        };
        if x.is_infinite() {
            sign + "inf"@
        } else {
            let units = in_decimal_units(x, places);
            let one = pow(10, places) as nat;
            if places == 0 {
                sign + decimal(units)
            } else {
                sign + decimal(units / one) + "."@ + padded_decimal(units % one, places)
            }
        }
    }
}

/// `10^places`.
fn power_of_ten(places: u8) -> (one: u64)
    requires
        places <= 9,
    ensures
        one == pow(10, places as nat),
        1 <= one <= 1_000_000_000,
{
    let mut one: u64 = 1;
    let mut k: u8 = 0;
    proof {
        lemma_pow0(10);
        lemma_ten_to_the_ninth();
    }
    while k < places
        invariant
            k <= places <= 9,
            one == pow(10, k as nat),
            1 <= one <= pow(10, 9) == 1_000_000_000,
        decreases places - k,
    {
        proof {
            reveal(pow);
            lemma_pow_increases(10, (k + 1) as nat, 9);
        }
        one = one * 10;
        k += 1;
    }
    one
}

proof fn lemma_ten_to_the_ninth()
    ensures
        pow(10, 9) == 1_000_000_000,
{
    reveal_with_fuel(pow, 10);
}

/// `2^exponent`.
fn power_of_two(exponent: u32) -> (power: u128)
    requires
        exponent <= 104,
    ensures
        power == pow2(exponent as nat),
        power <= 0x100_0000_0000_0000_0000_0000_0000,
{
    let mut power: u128 = 1;
    let mut k: u32 = 0;
    proof {
        vstd::arithmetic::power2::lemma2_to64();
    }
    while k < exponent
        invariant
            k <= exponent <= 104,
            power == pow2(k as nat),
        decreases exponent - k,
    {
        proof {
            vstd::arithmetic::power2::lemma_pow2_unfold((k + 1) as nat);
            vstd::arithmetic::power2::lemma_pow2_strictly_increases(k as nat, 104);
            lemma_pow2_104();
        }
        power = power * 2;
        k += 1;
    }
    proof {
        if exponent < 104 {
            vstd::arithmetic::power2::lemma_pow2_strictly_increases(exponent as nat, 104);
        }
        lemma_pow2_104();
    }
    power
}

proof fn lemma_pow2_104()
    ensures
        pow2(104) == 0x100_0000_0000_0000_0000_0000_0000,
{
    vstd::arithmetic::power2::lemma2_to64();
    vstd::arithmetic::power2::lemma_pow2_adds(52, 52);
    assert(pow2(52) == 0x10_0000_0000_0000) by {
        vstd::arithmetic::power2::lemma2_to64_rest();
    }
}

/// Print a number with exactly `places` digits after the decimal point.
pub fn fixed_point_text(x: Binary32, places: u8) -> (out: String)
    requires
        places <= 9,
    ensures
        out@ == fixed_point(x, places as nat),
{
    let exponent_field: u32 = (x.bits / 0x80_0000) % 0x100;
    let fraction_field: u32 = x.bits % 0x80_0000;
    if exponent_field == 0xff && fraction_field != 0 {
        return "NaN".to_owned();
    }
    let mut out: String = if x.bits >= 0x8000_0000 {
        "-".to_owned()
    } else {
        "".to_owned()
    };
    if exponent_field == 0xff {
        out.append("inf");
        return out;
    }
    let significand: u64 = if exponent_field == 0 {
        fraction_field as u64
    } else {
        fraction_field as u64 + 0x80_0000
    };
    let one: u64 = power_of_ten(places);
    let ghost units = in_decimal_units(x, places as nat);
    if exponent_field >= 150 {
        let shift: u128 = power_of_two(exponent_field - 150);
        assert(significand * shift <= 0xff_ffff * 0x100_0000_0000_0000_0000_0000_0000)
            by (nonlinear_arith)
            requires
                significand <= 0xff_ffff,
                shift <= 0x100_0000_0000_0000_0000_0000_0000,
        ;
        let whole: u128 = significand as u128 * shift;
        proof {
            assert(units == whole * one) by (nonlinear_arith)
                requires
                    units == (significand * one) * shift,
                    whole == significand * shift,
            ;
            vstd::arithmetic::div_mod::lemma_div_multiples_vanish(whole as int, one as int);
            vstd::arithmetic::div_mod::lemma_mod_multiples_basic(whole as int, one as int);
            assert(units == one * whole) by (nonlinear_arith)
                requires
                    units == whole * one,
            ;
            if places == 0 {
                reveal(pow);
                assert(one == 1);
            }
        }
        append_decimal(&mut out, whole);
        if places > 0 {
            out.append(".");
            append_padded_decimal(&mut out, 0, places);
        }
    } else {
        assert(significand * one <= 0xff_ffff * 1_000_000_000) by (nonlinear_arith)
            requires
                significand <= 0xff_ffff,
                one <= 1_000_000_000,
        ;
        let scaled: u64 = significand * one;
        let halvings: u32 = if exponent_field == 0 {
            149
        } else {
            150 - exponent_field
        };
        let rounded: u64 = if halvings >= 63 {
            proof {
                lemma_pow2_63_or_more(halvings as nat);
                vstd::arithmetic::div_mod::lemma_basic_div(
                    scaled as int,
                    pow2(halvings as nat) as int,
                );
                vstd::arithmetic::div_mod::lemma_small_mod(
                    scaled as nat,
                    pow2(halvings as nat),
                );
            }
            0
        } else {
            proof {
                vstd::arithmetic::power2::lemma_pow2_strictly_increases(halvings as nat, 63);
                vstd::arithmetic::power2::lemma2_to64_rest();
                lemma_pow2_pos(halvings as nat);
            }
            let denominator: u64 = power_of_two(halvings) as u64;
            let below: u64 = scaled / denominator;
            let rest: u64 = scaled % denominator;
            if rest < denominator - rest || (rest == denominator - rest && below % 2 == 0) {
                below
            } else {
                below + 1
            }
        };
        if places == 0 {
            append_decimal(&mut out, rounded as u128);
        } else {
            append_decimal(&mut out, (rounded / one) as u128);
            out.append(".");
            append_padded_decimal(&mut out, (rounded % one) as u128, places);
        }
    }
    out
}

proof fn lemma_pow2_63_or_more(n: nat)
    requires
        n >= 63,
    ensures
        pow2(n) >= 0x8000_0000_0000_0000,
{
    vstd::arithmetic::power2::lemma2_to64_rest();
    if n > 63 {
        vstd::arithmetic::power2::lemma_pow2_strictly_increases(63, n);
    }
}

/// How double-precision numbers compare, by their bits: the upper bit is the sign;
/// positive numbers are ordered as their bits are, negative ones the other way round;
/// negative numbers lie below positive ones, but the two zeros are the same; and NaNs
/// compare with nothing.
pub proof fn law_double_order_by_bits(a: Binary64, b: Binary64)
    ensures
        a.is_nan() <==> 0x7ff0_0000_0000_0000 < a.bits < 0x8000_0000_0000_0000
            || 0xfff0_0000_0000_0000 < a.bits,
        a.is_nan() || b.is_nan() ==> !a.less(b) && !a.equals(b),
        !a.is_nan() && !b.is_nan() ==> match (
            a.bits >= 0x8000_0000_0000_0000,
            b.bits >= 0x8000_0000_0000_0000,
        ) {
            (false, false) => a.less(b) == (a.bits < b.bits) && a.equals(b) == (a.bits == b.bits),
            (true, true) => a.less(b) == (a.bits > b.bits) && a.equals(b) == (a.bits == b.bits),
            (true, false) => {
                let zeros = a.bits == 0x8000_0000_0000_0000 && b.bits == 0;
                a.less(b) == !zeros && a.equals(b) == zeros
            },
            (false, true) => {
                let zeros = a.bits == 0 && b.bits == 0x8000_0000_0000_0000;
                !a.less(b) && a.equals(b) == zeros
            },
        },
{
}

/// Of two numbers that are not NaN exactly one is the lesser, or they are equal.
pub proof fn law_double_order_is_total(a: Binary64, b: Binary64, c: Binary64)
    requires
        !a.is_nan(),
        !b.is_nan(),
        !c.is_nan(),
    ensures
        a.less(b) || b.less(a) || a.equals(b),
        !(a.less(b) && b.less(a)),
        a.less(b) ==> !a.equals(b) && !b.equals(a),
        a.less(b) && b.less(c) ==> a.less(c),
        a.equals(b) && b.less(c) ==> a.less(c),
{
}

/// When single-precision numbers are equal, by their bits: neither is NaN, and they
/// have the same bits or are zeros of either sign.
pub proof fn law_single_equality_by_bits(a: Binary32, b: Binary32)
    ensures
        a.is_nan() <==> 0x7f80_0000 < a.bits < 0x8000_0000 || 0xff80_0000 < a.bits,
        a.equals(a) <==> !a.is_nan(),
        a.equals(b) <==> !a.is_nan() && !b.is_nan() && (a.bits == b.bits || (a.bits == 0 && b.bits
            == 0x8000_0000) || (a.bits == 0x8000_0000 && b.bits == 0)),
{
}

/// A quotient is rounded to a nearest integer, and where two are equally near, to the
/// even one.
pub proof fn law_quotients_are_rounded_to_nearest(numerator: nat, denominator: nat)
    requires
        denominator > 0,
    ensures
        ({
            let error = 2 * (rounded_quotient(numerator, denominator) * denominator - numerator);
            &&& -denominator <= error <= denominator
            &&& error == denominator || error == -denominator ==> rounded_quotient(
                numerator,
                denominator,
            ) % 2 == 0
        }),
{
    let n = numerator as int;
    let d = denominator as int;
    let below = n / d;
    let rest = n % d;
    vstd::arithmetic::div_mod::lemma_fundamental_div_mod(n, d);
    assert(d * below == below * d) by (nonlinear_arith);
    assert((below + 1) * d == below * d + d) by (nonlinear_arith);
    assert(below == numerator / denominator);
    assert(rest == numerator % denominator);
    assert(0 <= rest < d);
}

/// Whether `units` is what a finite number comes to in units of `10^-places`: exactly,
/// if its bits say that it is an integer; otherwise within half a unit, and even where
/// it is just between two.
pub open spec fn nearest_units(x: Binary32, places: nat, units: nat) -> bool {
    let exponent = (x.bits as int / 0x80_0000) % 0x100;
    let significand = x.bits as int % 0x80_0000 + if exponent == 0 {
        0int
    } else {
        0x80_0000
    };
    let scaled = significand * pow(10, places);
    if exponent >= 150 {
        units == scaled * pow2((exponent - 150) as nat)
    } else {
        let one = pow2(
            if exponent == 0 {
                149
            } else {
                (150 - exponent) as nat
            },
        );
        let error = 2 * (units * one - scaled);
        -one <= error <= one && (error == one || error == -one ==> units % 2 == 0)
    }
}

/// A finite number is printed as a minus sign if its sign bit is set, then digits, and
/// where places are asked for, a point and that many digits more; the digits together
/// are the number nearest to it.
pub proof fn law_printed_digits_are_nearest(x: Binary32, places: nat)
    requires
        (x.bits / 0x80_0000) % 0x100 != 0xff,
    ensures
        ({
            let text = fixed_point(x, places);
            let body = if x.bits >= 0x8000_0000 {
                text.skip(1)
            } else {
                text
            };
            let point = body.len() - places - 1;
            &&& x.bits >= 0x8000_0000 <==> text[0] == '-'
            &&& places == 0 ==> all_digits(body) && nearest_units(x, places, digits_value(body))
            &&& places > 0 ==> {
                &&& point >= 1
                &&& body[point] == '.'
                &&& all_digits(body.take(point))
                &&& all_digits(body.skip(point + 1))
                &&& nearest_units(
                    x,
                    places,
                    (digits_value(body.take(point)) * pow(10, places) + digits_value(
                        body.skip(point + 1),
                    )) as nat,
                )
            }
        }),
{
    reveal_strlit("-");
    reveal_strlit("");
    reveal_strlit(".");
    let text = fixed_point(x, places);
    let units = in_decimal_units(x, places);
    let one = pow(10, places);
    vstd::arithmetic::power::lemma_pow_positive(10, places);
    lemma_units_are_nearest(x, places);
    if places == 0 {
        law_numerals_read_back(units);
        let body = decimal(units);
        if x.bits >= 0x8000_0000 {
            assert(text.skip(1) =~= body);
        } else {
            assert(text =~= body);
        }
    } else {
        let whole = decimal(units / one as nat);
        let part = padded_decimal(units % one as nat, places);
        law_numerals_read_back(units / one as nat);
        law_padded_numerals_read_back(units % one as nat, places);
        vstd::arithmetic::div_mod::lemma_mod_twice(units as int, one);
        vstd::arithmetic::div_mod::lemma_fundamental_div_mod(units as int, one);
        assert(one * (units as int / one) == (units as int / one) * one) by (nonlinear_arith);
        let body = whole + seq!['.'] + part;
        assert("."@ =~= seq!['.']);
        if x.bits >= 0x8000_0000 {
            assert(text =~= seq!['-'] + body);
            assert(text.skip(1) =~= body);
        } else {
            assert(text =~= body);
            assert(text[0] == whole[0]);
        }
        let point = body.len() - places - 1;
        assert(body.take(point) =~= whole);
        assert(body.skip(point + 1) =~= part);
    }
}

proof fn lemma_units_are_nearest(x: Binary32, places: nat)
    requires
        (x.bits / 0x80_0000) % 0x100 != 0xff,
    ensures
        nearest_units(x, places, in_decimal_units(x, places)),
{
    vstd::arithmetic::power::lemma_pow_positive(10, places);
    let scaled = x.significand() * pow(10, places) as nat;
    assert(scaled >= 0);
    if x.exponent() < 0 {
        let one = pow2((-x.exponent()) as nat);
        lemma_pow2_pos((-x.exponent()) as nat);
        law_quotients_are_rounded_to_nearest(scaled, one);
    }
}

/// What is no number prints as `NaN`, without a sign; and an infinite one as `inf`,
/// with a minus sign if its sign bit is set.
pub proof fn law_special_numbers_are_named(x: Binary32, places: nat)
    ensures
        0x7f80_0000 < x.bits < 0x8000_0000 || 0xff80_0000 < x.bits ==> fixed_point(x, places)
            == "NaN"@,
        x.bits == 0x7f80_0000 ==> fixed_point(x, places) == "inf"@,
        x.bits == 0xff80_0000 ==> fixed_point(x, places) == "-inf"@,
{
    reveal_strlit("");
    reveal_strlit("-");
    reveal_strlit("inf");
    reveal_strlit("-inf");
    assert(""@ + "inf"@ =~= "inf"@);
    assert("-"@ + "inf"@ =~= "-inf"@);
}

} // verus!
