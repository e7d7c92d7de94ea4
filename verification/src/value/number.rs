//! The `Number` kind: 32-bit integer arithmetic. Addition, subtraction and
//! multiplication wrap around; division and remainder by zero degrade to the
//! neutral `Nothing` result, as the language never raises.

use vstd::prelude::*;

use crate::text::char_string;
use crate::value::Value;
use crate::value::boolean::BooleanValue;
use crate::value::none::NoneValue;

verus! {

/// The payload of the `Number` kind.
#[derive(Clone, Copy, Debug)]
pub struct NumberValue {
    pub value: i32,
}

/// The character for one decimal digit.
pub open spec fn spec_digit_char(d: int) -> char {
    (d + 48) as char
}

/// The decimal digits of a non-negative number, most significant first.
pub open spec fn spec_nat_digits(n: nat) -> Seq<char>
    decreases n,
{
    if n < 10 {
        seq![spec_digit_char(n as int)]
    } else {
        spec_nat_digits(n / 10).push(spec_digit_char((n % 10) as int))
    }
}

/// The decimal rendering of a signed number.
pub open spec fn spec_i32_string(n: int) -> Seq<char> {
    if n < 0 {
        seq!['-'] + spec_nat_digits((-n) as nat)
    } else {
        spec_nat_digits(n as nat)
    }
}

/// A wrapped integer power: `base` multiplied into `1` exactly `e` times,
/// each multiplication wrapping at 32 bits.
pub open spec fn spec_wrapping_pow(base: i32, e: int) -> i32
    decreases e,
{
    if e <= 0 {
        1
    } else {
        vstd::wrapping::i32_specs::wrapping_mul(spec_wrapping_pow(base, e - 1), base)
    }
}

/// The absolute value of a 32-bit number, which always fits in a `u32`.
fn magnitude(v: i32) -> (r: u32)
    ensures
        r as int == spec_abs(v as int),
{
    if v < 0 {
        (-(v as i64)) as u32
    } else {
        v as u32
    }
}

proof fn lemma_div_mag_bounds(a: int, b: int)
    requires
        0 <= a <= 0x8000_0000,
        1 <= b,
    ensures
        0 <= a / b <= a,
{
    vstd::arithmetic::div_mod::lemma_div_nonincreasing(a, b);
    vstd::arithmetic::div_mod::lemma_div_pos_is_pos(a, b);
}

fn digit_char(d: u8) -> (c: char)
    requires
        d < 10,
    ensures
        c == spec_digit_char(d as int),
{
    (d + 48) as char
}

fn push_u32_digits(s: &mut String, n: u32)
    ensures
        final(s)@ == old(s)@ + spec_nat_digits(n as nat),
    decreases n,
{
    if n >= 10 {
        push_u32_digits(s, n / 10);
    }
    s.push(digit_char((n % 10) as u8));
    proof {
        if n >= 10 {
            assert(final(s)@ =~= old(s)@ + spec_nat_digits(n as nat));
        } else {
            assert(final(s)@ =~= old(s)@ + spec_nat_digits(n as nat));
        }
    }
}

impl NumberValue {
    /// A fresh `NumberValue` payload.
    pub fn new(value: i32) -> (r: NumberValue)
        ensures
            r == (NumberValue { value }),
    {
        NumberValue { value }
    }

    /// A fresh `Number` value.
    pub fn create(initial: i32) -> (r: Value)
        ensures
            r == Value::Number(NumberValue { value: initial }),
    {
        Value::Number(NumberValue::new(initial))
    }

    /// The tag that names this kind in diagnostics.
    pub fn get_type_name(&self) -> (r: &'static str)
        ensures
            r@ == "Number"@,
    {
        "Number"
    }

    /// The decimal rendering of the number.
    pub fn to_string(&self) -> (r: String)
        ensures
            r@ == spec_i32_string(self.value as int),
    {
        if self.value < 0 {
            let mut s = char_string('-');
            let magnitude: u32 = (-(self.value as i64)) as u32;
            push_u32_digits(&mut s, magnitude);
            proof {
                assert(s@ =~= spec_i32_string(self.value as int));
            }
            s
        } else {
            let mut s = String::new();
            push_u32_digits(&mut s, self.value as u32);
            proof {
                assert(s@ =~= spec_i32_string(self.value as int));
            }
            s
        }
    }

    /// Numbers cannot be indexed: the result is `Nothing`.
    pub fn get(&self, subscripts: &Vec<Value>) -> (r: Value)
        ensures
            r == Value::Nothing(NoneValue {  }),
    {
        NoneValue::create()
    }

    /// Numbers cannot be index-assigned: the result is `Nothing`.
    pub fn set(&self, subscripts: &Vec<Value>, value: Value) -> (r: Value)
        ensures
            r == Value::Nothing(NoneValue {  }),
    {
        NoneValue::create()
    }

    /// Unary plus keeps the number.
    pub fn unary_plus(&self) -> (r: Value)
        ensures
            r == Value::Number(NumberValue { value: self.value }),
    {
        NumberValue::create(self.value)
    }

    /// Unary minus negates, wrapping on the smallest value.
    pub fn unary_minus(&self) -> (r: Value)
        ensures
            r == Value::Number(
                NumberValue { value: vstd::wrapping::i32_specs::wrapping_sub(0, self.value) },
            ),
    {
        NumberValue::create(0i32.wrapping_sub(self.value))
    }

    /// Bitwise complement: in two's complement, `-1 - value`.
    pub fn not(&self) -> (r: Value)
        ensures
            r == Value::Number(NumberValue { value: (-1 - self.value) as i32 }),
    {
        NumberValue::create(-1 - self.value)
    }

    /// Integer power: a negative exponent yields `0`, exponent `0` yields
    /// `1`, otherwise the base is multiplied in `e` times, wrapping. A
    /// non-number exponent yields `Nothing`.
    pub fn power(&self, other: &Value) -> (r: Value)
        ensures
            r == spec_number_power(self.value, *other),
    {
        match other {
            Value::Number(number) => {
                if number.value < 0 {
                    return NumberValue::create(0);
                }
                if number.value == 0 {
                    return NumberValue::create(1);
                }
                let mut result: i32 = 1;
                let mut done: i32 = 0;
                while done < number.value
                    invariant
                        0 <= done <= number.value,
                        result == spec_wrapping_pow(self.value, done as int),
                    decreases number.value - done,
                {
                    result = result.wrapping_mul(self.value);
                    done = done + 1;
                }
                NumberValue::create(result)
            },
            _ => NoneValue::create(),
        }
    }

    /// Wrapping multiplication with another number; `Nothing` otherwise.
    pub fn times(&self, other: &Value) -> (r: Value)
        ensures
            r == spec_number_times(self.value, *other),
    {
        match other {
            Value::Number(number) => NumberValue::create(self.value.wrapping_mul(number.value)),
            _ => NoneValue::create(),
        }
    }

    /// Integer division with another number, truncated towards zero;
    /// division by zero, and a non-number divisor, yield `Nothing`.
    pub fn divide(&self, other: &Value) -> (r: Value)
        ensures
            r == spec_number_divide(self.value, *other),
    {
        match other {
            Value::Number(number) => {
                if number.value == 0 {
                    NoneValue::create()
                } else if self.value == i32::MIN && number.value == -1 {
                    NumberValue::create(i32::MIN)
                } else {
                    let mag_a = magnitude(self.value);
                    let mag_b = magnitude(number.value);
                    let big = mag_a / mag_b;
                    proof {
                        lemma_div_mag_bounds(mag_a as int, mag_b as int);
                    }
                    if (self.value < 0) == (number.value < 0) {
                        proof {
                            if self.value == i32::MIN {
                                vstd::arithmetic::div_mod::lemma_div_is_ordered_by_denominator(
                                    mag_a as int,
                                    2,
                                    mag_b as int,
                                );
                            }
                        }
                        NumberValue::create(big as i32)
                    } else {
                        NumberValue::create((-(big as i64)) as i32)
                    }
                }
            },
            _ => NoneValue::create(),
        }
    }

    /// Integer remainder with another number, with the sign of the dividend;
    /// a zero divisor, and a non-number divisor, yield `Nothing`.
    pub fn reminder(&self, other: &Value) -> (r: Value)
        ensures
            r == spec_number_reminder(self.value, *other),
    {
        match other {
            Value::Number(number) => {
                if number.value == 0 {
                    NoneValue::create()
                } else {
                    let big = magnitude(self.value) % magnitude(number.value);
                    if self.value >= 0 {
                        NumberValue::create(big as i32)
                    } else {
                        NumberValue::create((-(big as i64)) as i32)
                    }
                }
            },
            _ => NoneValue::create(),
        }
    }

    /// Wrapping addition with another number; `Nothing` otherwise.
    pub fn plus(&self, other: &Value) -> (r: Value)
        ensures
            r == spec_number_plus(self.value, *other),
    {
        match other {
            Value::Number(number) => NumberValue::create(self.value.wrapping_add(number.value)),
            _ => NoneValue::create(),
        }
    }

    /// Wrapping subtraction with another number; `Nothing` otherwise.
    pub fn minus(&self, other: &Value) -> (r: Value)
        ensures
            r == spec_number_minus(self.value, *other),
    {
        match other {
            Value::Number(number) => NumberValue::create(self.value.wrapping_sub(number.value)),
            _ => NoneValue::create(),
        }
    }

    /// Numbers contain nothing.
    pub fn contains(&self, other: &Value) -> (r: BooleanValue)
        ensures
            r == (BooleanValue { value: false }),
    {
        BooleanValue::new(false)
    }

    /// Exact match of kind and value.
    pub fn equals(&self, other: &Value) -> (r: BooleanValue)
        ensures
            r == (BooleanValue { value: *other matches Value::Number(n) && n.value == self.value }),
    {
        match other {
            Value::Number(number) => BooleanValue::new(self.value == number.value),
            _ => BooleanValue::new(false),
        }
    }

    /// The sign of the difference with another number; `0` otherwise.
    pub fn compare(&self, other: &Value) -> (r: NumberValue)
        ensures
            r == (NumberValue { value: spec_number_compare(self.value, *other) }),
    {
        match other {
            Value::Number(number) => {
                if self.value == number.value {
                    NumberValue::new(0)
                } else if self.value > number.value {
                    NumberValue::new(1)
                } else {
                    NumberValue::new(-1)
                }
            },
            _ => NumberValue::new(0),
        }
    }
}

/// What `power` returns, at the specification level.
pub open spec fn spec_number_power(base: i32, other: Value) -> Value {
    match other {
        Value::Number(n) => if n.value < 0 {
            Value::Number(NumberValue { value: 0 })
        } else {
            Value::Number(NumberValue { value: spec_wrapping_pow(base, n.value as int) })
        },
        _ => Value::Nothing(NoneValue {  }),
    }
}

/// What `times` returns, at the specification level.
pub open spec fn spec_number_times(lhs: i32, other: Value) -> Value {
    match other {
        Value::Number(n) => Value::Number(
            NumberValue { value: vstd::wrapping::i32_specs::wrapping_mul(lhs, n.value) },
        ),
        _ => Value::Nothing(NoneValue {  }),
    }
}

/// The absolute value, as a mathematical integer.
pub open spec fn spec_abs(v: int) -> int {
    if v < 0 {
        -v
    } else {
        v
    }
}

/// Division truncated towards zero, as Rust's `/` truncates; the one
/// overflowing case wraps to the smallest value.
pub open spec fn spec_trunc_div(a: i32, b: i32) -> i32
    recommends
        b != 0,
{
    if a == i32::MIN && b == -1 {
        i32::MIN
    } else if (a < 0) == (b < 0) {
        (spec_abs(a as int) / spec_abs(b as int)) as i32
    } else {
        (-(spec_abs(a as int) / spec_abs(b as int))) as i32
    }
}

/// Remainder with the sign of the dividend, as Rust's `%` behaves.
pub open spec fn spec_trunc_rem(a: i32, b: i32) -> i32
    recommends
        b != 0,
{
    if a >= 0 {
        (spec_abs(a as int) % spec_abs(b as int)) as i32
    } else {
        (-(spec_abs(a as int) % spec_abs(b as int))) as i32
    }
}

/// What `divide` returns, at the specification level.
pub open spec fn spec_number_divide(lhs: i32, other: Value) -> Value {
    match other {
        Value::Number(n) => if n.value == 0 {
            Value::Nothing(NoneValue {  })
        } else {
            Value::Number(NumberValue { value: spec_trunc_div(lhs, n.value) })
        },
        _ => Value::Nothing(NoneValue {  }),
    }
}

/// What `reminder` returns, at the specification level.
pub open spec fn spec_number_reminder(lhs: i32, other: Value) -> Value {
    match other {
        Value::Number(n) => if n.value == 0 {
            Value::Nothing(NoneValue {  })
        } else {
            Value::Number(NumberValue { value: spec_trunc_rem(lhs, n.value) })
        },
        _ => Value::Nothing(NoneValue {  }),
    }
}

/// What `plus` returns, at the specification level.
pub open spec fn spec_number_plus(lhs: i32, other: Value) -> Value {
    match other {
        Value::Number(n) => Value::Number(
            NumberValue { value: vstd::wrapping::i32_specs::wrapping_add(lhs, n.value) },
        ),
        _ => Value::Nothing(NoneValue {  }),
    }
}

/// What `minus` returns, at the specification level.
pub open spec fn spec_number_minus(lhs: i32, other: Value) -> Value {
    match other {
        Value::Number(n) => Value::Number(
            NumberValue { value: vstd::wrapping::i32_specs::wrapping_sub(lhs, n.value) },
        ),
        _ => Value::Nothing(NoneValue {  }),
    }
}

/// What `compare` returns, at the specification level: the sign of the
/// mathematical difference.
pub open spec fn spec_number_compare(lhs: i32, other: Value) -> i32 {
    match other {
        Value::Number(n) => if lhs == n.value {
            0i32
        } else if lhs > n.value {
            1i32
        } else {
            -1i32
        },
        _ => 0i32,
    }
}

} // verus!
