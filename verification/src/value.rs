//! The runtime value model: a closed set of dynamically typed values sharing
//! one operation contract (arithmetic, comparison, indexing, stringification).
//!
//! An operation applied to operand kinds it does not understand returns the
//! kind-appropriate neutral value (`Nothing`, `false`, or `0`) instead of
//! failing: the language never raises on a type mismatch.

pub mod boolean;
pub mod closure;
pub mod none;
pub mod number;
pub mod provider;
pub mod scope;
pub mod string;

use vstd::prelude::*;

use crate::value::boolean::BooleanValue;
use crate::value::boolean::spec_boolean_string;
use crate::value::closure::ClosureValue;
use crate::value::none::NoneValue;
use crate::value::number::NumberValue;
use crate::value::number::spec_i32_string;
use crate::value::number::spec_number_compare;
use crate::value::number::spec_number_divide;
use crate::value::number::spec_number_minus;
use crate::value::number::spec_number_plus;
use crate::value::number::spec_number_power;
use crate::value::number::spec_number_reminder;
use crate::value::number::spec_number_times;
use crate::value::provider::ProviderValue;
use crate::value::scope::ScopeValue;
use crate::value::scope::spec_dup;
use crate::value::string::StringValue;
use crate::value::string::spec_sign;
use crate::value::string::spec_str_contains;
use crate::value::string::spec_string_get;
use crate::value::string::spec_string_times;

verus! {

/// One runtime value. Every kind carries its payload in a struct of its own,
/// which also owns the kind-specific behaviour of the shared operations.
#[derive(Debug)]
pub enum Value {
    Nothing(NoneValue),
    Number(NumberValue),
    Boolean(BooleanValue),
    Str(StringValue),
    Closure(ClosureValue),
    Scope(ScopeValue),
    Provider(ProviderValue),
}

/// The string form of a value, at the specification level.
pub open spec fn spec_value_string(v: Value) -> Seq<char> {
    match v {
        Value::Nothing(_) => "None"@,
        Value::Number(n) => spec_i32_string(n.value as int),
        Value::Boolean(b) => spec_boolean_string(b.value),
        Value::Str(s) => s.value@,
        Value::Closure(_) => "[closure]"@,
        Value::Scope(_) => "[scope]"@,
        Value::Provider(_) => "[value provider]"@,
    }
}

impl Value {
    /// The kind tag of this value, at the specification level.
    pub open spec fn spec_type_name(self) -> Seq<char> {
        match self {
            Value::Nothing(_) => "NoneType"@,
            Value::Number(_) => "Number"@,
            Value::Boolean(_) => "Boolean"@,
            Value::Str(_) => "String"@,
            Value::Closure(_) => "Closure"@,
            Value::Scope(_) => "ScopeValue"@,
            Value::Provider(_) => "Provider"@,
        }
    }

    /// The tag that names this value's kind in diagnostics.
    pub fn get_type_name(&self) -> (r: &'static str)
        ensures
            r@ == self.spec_type_name(),
    {
        match self {
            Value::Nothing(it) => it.get_type_name(),
            Value::Number(it) => it.get_type_name(),
            Value::Boolean(it) => it.get_type_name(),
            Value::Str(it) => it.get_type_name(),
            Value::Closure(it) => it.get_type_name(),
            Value::Scope(it) => it.get_type_name(),
            Value::Provider(it) => it.get_type_name(),
        }
    }

    /// The string form of the value.
    pub fn to_string(&self) -> (r: String)
        ensures
            r@ == spec_value_string(*self),
    {
        match self {
            Value::Nothing(it) => it.to_string(),
            Value::Number(it) => it.to_string(),
            Value::Boolean(it) => it.to_string(),
            Value::Str(it) => it.to_string(),
            Value::Closure(it) => it.to_string(),
            Value::Scope(it) => it.to_string(),
            Value::Provider(it) => it.to_string(),
        }
    }

    /// The copy of the value that leaves an environment on a read, or enters
    /// one on a write: most kinds are copied as they stand (a closure by its
    /// handle), an environment degrades to `Nothing`, a provider is copied
    /// through.
    pub fn duplicate_or_move(&self) -> (r: Value)
        ensures
            r == spec_dup(*self),
        decreases *self,
    {
        match self {
            Value::Nothing(_) => NoneValue::create(),
            Value::Number(it) => NumberValue::create(it.value),
            Value::Boolean(it) => BooleanValue::create(it.value),
            Value::Str(it) => Value::Str(StringValue { value: it.value.clone() }),
            Value::Closure(it) => ClosureValue::create(it.data),
            Value::Scope(_) => NoneValue::create(),
            Value::Provider(it) => Value::Provider(
                ProviderValue { delegate: Box::new(it.delegate.duplicate_or_move()) },
            ),
        }
    }

    /// Indexing with subscripts; only strings understand it.
    pub fn get(&self, subscripts: &Vec<Value>) -> (r: Value)
        ensures
            match self {
                Value::Str(s) => match spec_string_get(s.value@, subscripts@) {
                    Some(t) => r matches Value::Str(out) && out.value@ == t,
                    None => r == Value::Nothing(NoneValue {  }),
                },
                Value::Boolean(_) => r == Value::Boolean(BooleanValue { value: false }),
                _ => r == Value::Nothing(NoneValue {  }),
            },
    {
        match self {
            Value::Nothing(it) => it.get(subscripts),
            Value::Number(it) => it.get(subscripts),
            Value::Boolean(it) => it.get(subscripts),
            Value::Str(it) => it.get(subscripts),
            Value::Closure(it) => it.get(subscripts),
            Value::Scope(it) => it.get(subscripts),
            Value::Provider(it) => it.get(subscripts),
        }
    }

    /// Index assignment; no kind understands it.
    pub fn set(&self, subscripts: &Vec<Value>, value: Value) -> (r: Value)
        ensures
            r == Value::Nothing(NoneValue {  }),
    {
        match self {
            Value::Nothing(it) => it.set(subscripts, value),
            Value::Number(it) => it.set(subscripts, value),
            Value::Boolean(it) => it.set(subscripts, value),
            Value::Str(it) => it.set(subscripts, value),
            Value::Closure(it) => it.set(subscripts, value),
            Value::Scope(it) => it.set(subscripts, value),
            Value::Provider(it) => it.set(subscripts, value),
        }
    }

    /// Unary plus: identity on numbers, a sign prefix on strings, neutral
    /// elsewhere.
    pub fn unary_plus(&self) -> (r: Value)
        ensures
            match self {
                Value::Number(n) => r == Value::Number(NumberValue { value: n.value }),
                Value::Str(s) => r matches Value::Str(out) && out.value@ == seq!['+'] + s.value@,
                Value::Boolean(_) => r == Value::Boolean(BooleanValue { value: false }),
                _ => r == Value::Nothing(NoneValue {  }),
            },
    {
        match self {
            Value::Nothing(it) => it.unary_plus(),
            Value::Number(it) => it.unary_plus(),
            Value::Boolean(it) => it.unary_plus(),
            Value::Str(it) => it.unary_plus(),
            Value::Closure(it) => it.unary_plus(),
            Value::Scope(it) => it.unary_plus(),
            Value::Provider(it) => it.unary_plus(),
        }
    }

    /// Unary minus: wrapping negation on numbers, a sign prefix on strings,
    /// neutral elsewhere.
    pub fn unary_minus(&self) -> (r: Value)
        ensures
            match self {
                Value::Number(n) => r == Value::Number(
                    NumberValue { value: vstd::wrapping::i32_specs::wrapping_sub(0, n.value) },
                ),
                Value::Str(s) => r matches Value::Str(out) && out.value@ == seq!['-'] + s.value@,
                Value::Boolean(_) => r == Value::Boolean(BooleanValue { value: false }),
                _ => r == Value::Nothing(NoneValue {  }),
            },
    {
        match self {
            Value::Nothing(it) => it.unary_minus(),
            Value::Number(it) => it.unary_minus(),
            Value::Boolean(it) => it.unary_minus(),
            Value::Str(it) => it.unary_minus(),
            Value::Closure(it) => it.unary_minus(),
            Value::Scope(it) => it.unary_minus(),
            Value::Provider(it) => it.unary_minus(),
        }
    }

    /// Logical-style complement: bitwise on numbers, neutral elsewhere.
    pub fn not(&self) -> (r: Value)
        ensures
            match self {
                Value::Number(n) => r == Value::Number(NumberValue { value: (-1 - n.value) as i32 }),
                Value::Boolean(_) => r == Value::Boolean(BooleanValue { value: false }),
                _ => r == Value::Nothing(NoneValue {  }),
            },
    {
        match self {
            Value::Nothing(it) => it.not(),
            Value::Number(it) => it.not(),
            Value::Boolean(it) => it.not(),
            Value::Str(it) => it.not(),
            Value::Closure(it) => it.not(),
            Value::Scope(it) => it.not(),
            Value::Provider(it) => it.not(),
        }
    }

    /// Exponentiation; only numbers understand it.
    pub fn power(&self, other: &Value) -> (r: Value)
        ensures
            match self {
                Value::Number(n) => r == spec_number_power(n.value, *other),
                Value::Boolean(_) => r == Value::Boolean(BooleanValue { value: false }),
                _ => r == Value::Nothing(NoneValue {  }),
            },
    {
        match self {
            Value::Nothing(it) => it.power(other),
            Value::Number(it) => it.power(other),
            Value::Boolean(it) => it.power(other),
            Value::Str(it) => it.power(other),
            Value::Closure(it) => it.power(other),
            Value::Scope(it) => it.power(other),
            Value::Provider(it) => it.power(other),
        }
    }

    /// Multiplication: wrapping on numbers, repetition on strings, neutral
    /// elsewhere.
    pub fn times(&self, other: &Value) -> (r: Value)
        ensures
            match self {
                Value::Number(n) => r == spec_number_times(n.value, *other),
                Value::Str(s) => match spec_string_times(s.value@, *other) {
                    Some(t) => r matches Value::Str(out) && out.value@ == t,
                    None => r == Value::Nothing(NoneValue {  }),
                },
                Value::Boolean(_) => r == Value::Boolean(BooleanValue { value: false }),
                _ => r == Value::Nothing(NoneValue {  }),
            },
    {
        match self {
            Value::Nothing(it) => it.times(other),
            Value::Number(it) => it.times(other),
            Value::Boolean(it) => it.times(other),
            Value::Str(it) => it.times(other),
            Value::Closure(it) => it.times(other),
            Value::Scope(it) => it.times(other),
            Value::Provider(it) => it.times(other),
        }
    }

    /// Division; only numbers understand it.
    pub fn divide(&self, other: &Value) -> (r: Value)
        ensures
            match self {
                Value::Number(n) => r == spec_number_divide(n.value, *other),
                Value::Boolean(_) => r == Value::Boolean(BooleanValue { value: false }),
                _ => r == Value::Nothing(NoneValue {  }),
            },
    {
        match self {
            Value::Nothing(it) => it.divide(other),
            Value::Number(it) => it.divide(other),
            Value::Boolean(it) => it.divide(other),
            Value::Str(it) => it.divide(other),
            Value::Closure(it) => it.divide(other),
            Value::Scope(it) => it.divide(other),
            Value::Provider(it) => it.divide(other),
        }
    }

    /// Remainder; only numbers understand it.
    pub fn reminder(&self, other: &Value) -> (r: Value)
        ensures
            match self {
                Value::Number(n) => r == spec_number_reminder(n.value, *other),
                Value::Boolean(_) => r == Value::Boolean(BooleanValue { value: false }),
                _ => r == Value::Nothing(NoneValue {  }),
            },
    {
        match self {
            Value::Nothing(it) => it.reminder(other),
            Value::Number(it) => it.reminder(other),
            Value::Boolean(it) => it.reminder(other),
            Value::Str(it) => it.reminder(other),
            Value::Closure(it) => it.reminder(other),
            Value::Scope(it) => it.reminder(other),
            Value::Provider(it) => it.reminder(other),
        }
    }

    /// Addition: wrapping on numbers, concatenation on strings (the other
    /// operand stringified), neutral elsewhere.
    pub fn plus(&self, other: &Value) -> (r: Value)
        ensures
            match self {
                Value::Number(n) => r == spec_number_plus(n.value, *other),
                Value::Str(s) => r matches Value::Str(out) && out.value@ == s.value@
                    + spec_value_string(*other),
                Value::Boolean(_) => r == Value::Boolean(BooleanValue { value: false }),
                _ => r == Value::Nothing(NoneValue {  }),
            },
    {
        match self {
            Value::Nothing(it) => it.plus(other),
            Value::Number(it) => it.plus(other),
            Value::Boolean(it) => it.plus(other),
            Value::Str(it) => it.plus(other),
            Value::Closure(it) => it.plus(other),
            Value::Scope(it) => it.plus(other),
            Value::Provider(it) => it.plus(other),
        }
    }

    /// Subtraction; only numbers understand it.
    pub fn minus(&self, other: &Value) -> (r: Value)
        ensures
            match self {
                Value::Number(n) => r == spec_number_minus(n.value, *other),
                Value::Boolean(_) => r == Value::Boolean(BooleanValue { value: false }),
                _ => r == Value::Nothing(NoneValue {  }),
            },
    {
        match self {
            Value::Nothing(it) => it.minus(other),
            Value::Number(it) => it.minus(other),
            Value::Boolean(it) => it.minus(other),
            Value::Str(it) => it.minus(other),
            Value::Closure(it) => it.minus(other),
            Value::Scope(it) => it.minus(other),
            Value::Provider(it) => it.minus(other),
        }
    }

    /// Containment: substring search on strings, `false` elsewhere.
    pub fn contains(&self, other: &Value) -> (r: BooleanValue)
        ensures
            match self {
                Value::Str(s) => r == (BooleanValue {
                    value: spec_str_contains(s.value@, spec_value_string(*other)),
                }),
                _ => r == (BooleanValue { value: false }),
            },
    {
        match self {
            Value::Nothing(it) => it.contains(other),
            Value::Number(it) => it.contains(other),
            Value::Boolean(it) => it.contains(other),
            Value::Str(it) => it.contains(other),
            Value::Closure(it) => it.contains(other),
            Value::Scope(it) => it.contains(other),
            Value::Provider(it) => it.contains(other),
        }
    }

    /// Equality: kind-and-value exact match on numbers, booleans and
    /// nothing; strings match their spelling against the other operand's
    /// string form; the remaining kinds equal nothing.
    pub fn equals(&self, other: &Value) -> (r: BooleanValue)
        ensures
            match self {
                Value::Nothing(_) => r == (BooleanValue {
                    value: *other matches Value::Nothing(_),
                }),
                Value::Number(n) => r == (BooleanValue {
                    value: *other matches Value::Number(m) && m.value == n.value,
                }),
                Value::Boolean(b) => r == (BooleanValue {
                    value: *other matches Value::Boolean(c) && c.value == b.value,
                }),
                Value::Str(s) => r == (BooleanValue {
                    value: s.value@ == spec_value_string(*other),
                }),
                _ => r == (BooleanValue { value: false }),
            },
    {
        match self {
            Value::Nothing(it) => it.equals(other),
            Value::Number(it) => it.equals(other),
            Value::Boolean(it) => it.equals(other),
            Value::Str(it) => it.equals(other),
            Value::Closure(it) => it.equals(other),
            Value::Scope(it) => it.equals(other),
            Value::Provider(it) => it.equals(other),
        }
    }

    /// Ordering: the sign of the difference on numbers, the sign of the
    /// length difference on strings (the documented quirk), `0` elsewhere.
    pub fn compare(&self, other: &Value) -> (r: NumberValue)
        ensures
            match self {
                Value::Number(n) => r == (NumberValue {
                    value: spec_number_compare(n.value, *other),
                }),
                Value::Str(s) => r == (NumberValue {
                    value: spec_sign(s.value@.len() - spec_value_string(*other).len()),
                }),
                _ => r == (NumberValue { value: 0 }),
            },
    {
        match self {
            Value::Nothing(it) => it.compare(other),
            Value::Number(it) => it.compare(other),
            Value::Boolean(it) => it.compare(other),
            Value::Str(it) => it.compare(other),
            Value::Closure(it) => it.compare(other),
            Value::Scope(it) => it.compare(other),
            Value::Provider(it) => it.compare(other),
        }
    }
}

/// Arithmetic neutrality: an arithmetic operation applied to two values of
/// mismatched kinds returns the kind-appropriate neutral value and never
/// fails, wherever the operation does not understand the operand. For the
/// kinds whose operations are constant — booleans answer `false`, nothing,
/// closures, environments and providers answer `Nothing`, and their
/// comparisons answer `0` — that is pinned directly by the `ensures` of the
/// operations above, whatever the other operand. This lemma records the
/// remaining cases, where the result depends on the operand's kind: every
/// number operation handed a non-number, and string repetition handed a
/// non-number. (String concatenation and the string comparisons understand
/// every operand kind by stringifying it, so no mismatch exists for them.)
pub proof fn lemma_arithmetic_neutrality(a: Value, b: Value)
    requires
        a.spec_type_name() != b.spec_type_name(),
    ensures
        a matches Value::Number(n) ==> {
            &&& spec_number_plus(n.value, b) == Value::Nothing(NoneValue {  })
            &&& spec_number_minus(n.value, b) == Value::Nothing(NoneValue {  })
            &&& spec_number_times(n.value, b) == Value::Nothing(NoneValue {  })
            &&& spec_number_divide(n.value, b) == Value::Nothing(NoneValue {  })
            &&& spec_number_reminder(n.value, b) == Value::Nothing(NoneValue {  })
            &&& spec_number_power(n.value, b) == Value::Nothing(NoneValue {  })
            &&& spec_number_compare(n.value, b) == 0
        },
        a matches Value::Str(s) ==> (b matches Value::Number(_) || spec_string_times(
            s.value@,
            b,
        ) is None),
{
    if a is Number {
        assert(!(b is Number));
    }
}

} // verus!
