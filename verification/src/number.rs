//! JSON numbers.
//!
//! A number is kept as it was written: a non-negative or a negative integer, or
//! the bits of a double. Taking an integer as a double is done on the bits.

use vstd::prelude::*;

verus! {

/// A JSON number.
#[derive(Clone, Copy, PartialEq, Eq, Structural, Debug)]
pub enum Number {
    /// An integer from zero up.
    PosInt(u64),
    /// An integer below zero.
    NegInt(i64),
    /// A double, by its bits.
    Float(u64),
}

/// The position of the highest bit that is set; zero for zero.
pub open spec fn top_bit(value: nat) -> nat
    decreases value,
{
    if value < 2 {
        0
    } else {
        1 + top_bit(value / 2)
    }
}

/// Two to the power `exponent`.
pub open spec fn two_to(exponent: nat) -> nat
    decreases exponent,
{
    if exponent == 0 {
        1
    } else {
        2 * two_to((exponent - 1) as nat)
    }
}

/// The bits of the double nearest to an integer, the one with an even last bit
/// where two are equally near.
pub open spec fn double_bits(value: nat) -> nat {
    let top = top_bit(value);
    if value == 0 {
        0
    } else if top <= 52 {
        (top + 1022) * 0x10_0000_0000_0000 + value * two_to((52 - top) as nat)
    } else {
        let unit = two_to((top - 52) as nat);
        let whole = value / unit;
        let rest = value % unit;
        let up: nat = if 2 * rest > unit || (2 * rest == unit && whole % 2 == 1) {
            1
        } else {
            0
        };
        (top + 1022) * 0x10_0000_0000_0000 + whole + up
    }
}

/// The bits of a number taken as a double.
pub open spec fn number_bits(number: Number) -> nat {
    match number {
        Number::PosInt(n) => double_bits(n as nat),
        Number::NegInt(n) => 0x8000_0000_0000_0000 + double_bits(if n < 0 { (-n) as nat } else { 0 }),
        Number::Float(bits) => bits as nat,
    }
}

proof fn lemma_top_bit(value: nat)
    requires
        value > 0,
    ensures
        two_to(top_bit(value)) <= value < 2 * two_to(top_bit(value)),
    decreases value,
{
    if value >= 2 {
        lemma_top_bit(value / 2);
    }
}

proof fn lemma_two_to_sum(a: nat, b: nat)
    ensures
        two_to(a + b) == two_to(a) * two_to(b),
    decreases a,
{
    if a == 0 {
        assert(two_to(a) * two_to(b) == two_to(b)) by (nonlinear_arith)
            requires
                two_to(a) == 1,
        ;
    } else {
        lemma_two_to_sum((a - 1) as nat, b);
        let x = two_to((a - 1) as nat);
        let y = two_to(b);
        assert((2 * x) * y == 2 * (x * y)) by (nonlinear_arith);
        assert((a + b - 1) as nat == (a - 1) as nat + b);
    }
}

proof fn lemma_two_to_positive(a: nat)
    ensures
        two_to(a) > 0,
    decreases a,
{
    if a > 0 {
        lemma_two_to_positive((a - 1) as nat);
    }
}

proof fn lemma_two_to_monotonic(a: nat, b: nat)
    requires
        a <= b,
    ensures
        two_to(a) <= two_to(b),
    decreases b,
{
    if a < b {
        lemma_two_to_monotonic(a, (b - 1) as nat);
        lemma_two_to_positive((b - 1) as nat);
    }
}

proof fn lemma_two_to_values()
    ensures
        two_to(11) == 0x800,
        two_to(52) == 0x10_0000_0000_0000,
        two_to(63) == 0x8000_0000_0000_0000,
        two_to(64) == 0x1_0000_0000_0000_0000,
{
    reveal_with_fuel(two_to, 17);
    assert(two_to(16) == 0x1_0000);
    lemma_two_to_sum(16, 16);
    lemma_two_to_sum(32, 16);
    lemma_two_to_sum(48, 4);
    lemma_two_to_sum(48, 15);
    lemma_two_to_sum(48, 16);
}

fn top_bit_of(value: u64) -> (r: u32)
    ensures
        r == top_bit(value as nat),
        r < 64,
    decreases value,
{
    proof {
        if value > 0 {
            lemma_top_bit(value as nat);
            lemma_two_to_values();
            if top_bit(value as nat) >= 64 {
                lemma_two_to_monotonic(64, top_bit(value as nat));
            }
        }
    }
    if value < 2 {
        0
    } else {
        1 + top_bit_of(value / 2)
    }
}

fn power_of_two(exponent: u32) -> (r: u64)
    requires
        exponent < 64,
    ensures
        r == two_to(exponent as nat),
    decreases exponent,
{
    proof {
        lemma_two_to_values();
        lemma_two_to_monotonic(exponent as nat, 63);
    }
    if exponent == 0 {
        1
    } else {
        2 * power_of_two(exponent - 1)
    }
}

proof fn lemma_double_bits_bound(value: nat)
    requires
        value < 0x1_0000_0000_0000_0000,
    ensures
        double_bits(value) < 0x7ff0_0000_0000_0000,
        value > 0 && top_bit(value) <= 52 ==> value * two_to((52 - top_bit(value)) as nat)
            < 0x20_0000_0000_0000,
        value > 0 && top_bit(value) > 52 ==> value / two_to((top_bit(value) - 52) as nat)
            < 0x20_0000_0000_0000,
        top_bit(value) < 64,
{
    lemma_two_to_values();
    if value > 0 {
        let top = top_bit(value);
        lemma_top_bit(value);
        if top >= 64 {
            lemma_two_to_monotonic(64, top);
        }
        if top <= 52 {
            let rest = (52 - top) as nat;
            lemma_two_to_sum(top, rest);
            let p = two_to(top);
            let q = two_to(rest);
            lemma_two_to_positive(rest);
            assert(value * q < 2 * (p * q)) by (nonlinear_arith)
                requires
                    value < 2 * p,
                    q > 0,
            ;
        } else {
            let rest = (top - 52) as nat;
            lemma_two_to_sum(52, rest);
            let u = two_to(rest);
            lemma_two_to_positive(rest);
            let whole = value / u;
            assert(whole < 0x20_0000_0000_0000) by (nonlinear_arith)
                requires
                    value < 2 * (0x10_0000_0000_0000 * u),
                    u > 0,
                    whole == value / u,
            ;
        }
    }
}

fn double_bits_of(value: u64) -> (r: u64)
    ensures
        r == double_bits(value as nat),
        r < 0x7ff0_0000_0000_0000,
{
    if value == 0 {
        return 0;
    }
    let top: u32 = top_bit_of(value);
    proof {
        lemma_double_bits_bound(value as nat);
    }
    let base: u64 = (top as u64 + 1022) * 0x10_0000_0000_0000;
    if top <= 52 {
        let unit: u64 = power_of_two(52 - top);
        base + value * unit
    } else {
        let unit: u64 = power_of_two(top - 52);
        proof {
            lemma_two_to_values();
            lemma_two_to_monotonic((top - 52) as nat, 11);
            lemma_two_to_positive((top - 52) as nat);
        }
        let whole: u64 = value / unit;
        let rest: u64 = value % unit;
        let up: u64 = if 2 * rest > unit || (2 * rest == unit && whole % 2 == 1) {
            1
        } else {
            0
        };
        base + whole + up
    }
}

impl Number {
    /// The number as a double.
    pub fn as_double(self) -> (r: Number)
        ensures
            r == Number::Float(number_bits(self) as u64),
            number_bits(self) <= u64::MAX,
    {
        match self {
            Number::PosInt(n) => Number::Float(double_bits_of(n)),
            Number::NegInt(n) => {
                if n < 0 {
                    let size: u64 = (-(n as i128)) as u64;
                    Number::Float(0x8000_0000_0000_0000 + double_bits_of(size))
                } else {
                    Number::Float(0x8000_0000_0000_0000)
                }
            },
            Number::Float(bits) => Number::Float(bits),
        }
    }

    /// The number that an integer is.
    pub fn of_int(value: i64) -> (r: Number)
        ensures
            r == int_number(value as int),
    {
        if value < 0 {
            Number::NegInt(value)
        } else {
            Number::PosInt(value as u64)
        }
    }
}

/// The number that an integer is.
pub open spec fn int_number(value: int) -> Number {
    if value < 0 {
        Number::NegInt(value as i64)
    } else {
        Number::PosInt(value as u64)
    }
}

/// An integer is taken as the double nearest to it: a number `m` of units of a power of two,
/// with the leading one where a double has it, and `m` units are no further from the integer
/// than half a unit. Where that leaves two, `m` is even; an integer that a double can hold is
/// held as it is.
pub proof fn law_integer_is_the_nearest_double(value: nat)
    requires
        0 < value < 0x1_0000_0000_0000_0000,
    ensures
        exists|top: nat, m: nat|
            {
                &&& two_to(top) <= value < 2 * two_to(top)
                &&& #[trigger] is_double_of(value, top, m)
                &&& double_bits(value) == (top + 1022) * 0x10_0000_0000_0000 + m
            },
        double_bits(0) == 0,
{
    let top = top_bit(value);
    lemma_top_bit(value);
    if top <= 52 {
        let m = value * two_to((52 - top) as nat);
        assert(is_double_of(value, top, m));
    } else {
        let unit = two_to((top - 52) as nat);
        lemma_two_to_positive((top - 52) as nat);
        let whole = value / unit;
        let rest = value % unit;
        assert(value == whole * unit + rest) by (nonlinear_arith)
            requires
                unit > 0,
                whole == value / unit,
                rest == value % unit,
        ;
        let up: nat = if 2 * rest > unit || (2 * rest == unit && whole % 2 == 1) {
            1
        } else {
            0
        };
        let m = whole + up;
        assert(m * unit == whole * unit + up * unit) by (nonlinear_arith)
            requires
                m == whole + up,
        ;
        assert(up * unit == if up == 1 {
            unit as int
        } else {
            0
        }) by (nonlinear_arith)
            requires
                up == 0 || up == 1,
        ;
        assert(0 <= rest < unit) by (nonlinear_arith)
            requires
                unit > 0,
                rest == value % unit,
        ;
        if up == 1 && 2 * rest == unit {
            assert(m % 2 == 0);
        }
        assert(is_double_of(value, top, m));
    }
}

/// Whether `m` units of the last place of a double with that highest bit come to the integer as
/// nearly as they can.
pub open spec fn is_double_of(value: nat, top: nat, m: nat) -> bool {
    if top <= 52 {
        m == value * two_to((52 - top) as nat)
    } else {
        let unit = two_to((top - 52) as nat);
        &&& 2 * (m * unit - value) <= unit
        &&& 2 * (value - m * unit) <= unit
        &&& 2 * (m * unit - value) == unit || 2 * (value - m * unit) == unit ==> m % 2 == 0
    }
}

/// A negative number is the double of its size with the sign bit set, and a double is itself.
pub proof fn law_sign_is_the_top_bit(n: i64, bits: u64)
    ensures
        n < 0 ==> number_bits(Number::NegInt(n)) == 0x8000_0000_0000_0000 + double_bits(
            (-n) as nat,
        ),
        n >= 0 ==> number_bits(Number::PosInt(n as u64)) == double_bits(n as nat),
        number_bits(Number::Float(bits)) == bits,
{
}

} // verus!
