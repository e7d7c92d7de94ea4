//! The `Boolean` kind. Its neutral result for unsupported operations is
//! `false` rather than `Nothing`.

use vstd::prelude::*;

use crate::value::Value;
use crate::value::none::NoneValue;
use crate::value::number::NumberValue;

verus! {

/// The payload of the `Boolean` kind.
#[derive(Clone, Copy, Debug)]
pub struct BooleanValue {
    pub value: bool,
}

impl BooleanValue {
    /// A fresh `BooleanValue` payload.
    pub fn new(initial: bool) -> (r: BooleanValue)
        ensures
            r == (BooleanValue { value: initial }),
    {
        BooleanValue { value: initial }
    }

    /// A fresh `Boolean` value.
    pub fn create(initial: bool) -> (r: Value)
        ensures
            r == Value::Boolean(BooleanValue { value: initial }),
    {
        Value::Boolean(BooleanValue::new(initial))
    }

    /// The tag that names this kind in diagnostics.
    pub fn get_type_name(&self) -> (r: &'static str)
        ensures
            r@ == "Boolean"@,
    {
        "Boolean"
    }

    /// `True` or `False`, as the language spells them.
    pub fn to_string(&self) -> (r: String)
        ensures
            r@ == spec_boolean_string(self.value),
    {
        if self.value {
            "True".to_owned()
        } else {
            "False".to_owned()
        }
    }

    /// Booleans cannot be indexed: the neutral `false`.
    pub fn get(&self, subscripts: &Vec<Value>) -> (r: Value)
        ensures
            r == Value::Boolean(BooleanValue { value: false }),
    {
        BooleanValue::create(false)
    }

    /// Booleans cannot be index-assigned: the result is `Nothing`.
    pub fn set(&self, subscripts: &Vec<Value>, value: Value) -> (r: Value)
        ensures
            r == Value::Nothing(NoneValue {  }),
    {
        NoneValue::create()
    }

    /// Arithmetic on a boolean degrades to the neutral `false`.
    pub fn unary_plus(&self) -> (r: Value)
        ensures
            r == Value::Boolean(BooleanValue { value: false }),
    {
        BooleanValue::create(false)
    }

    /// Arithmetic on a boolean degrades to the neutral `false`.
    pub fn unary_minus(&self) -> (r: Value)
        ensures
            r == Value::Boolean(BooleanValue { value: false }),
    {
        BooleanValue::create(false)
    }

    /// Arithmetic on a boolean degrades to the neutral `false`.
    pub fn not(&self) -> (r: Value)
        ensures
            r == Value::Boolean(BooleanValue { value: false }),
    {
        BooleanValue::create(false)
    }

    /// Arithmetic on a boolean degrades to the neutral `false`.
    pub fn power(&self, other: &Value) -> (r: Value)
        ensures
            r == Value::Boolean(BooleanValue { value: false }),
    {
        BooleanValue::create(false)
    }

    /// Arithmetic on a boolean degrades to the neutral `false`.
    pub fn times(&self, other: &Value) -> (r: Value)
        ensures
            r == Value::Boolean(BooleanValue { value: false }),
    {
        BooleanValue::create(false)
    }

    /// Arithmetic on a boolean degrades to the neutral `false`.
    pub fn divide(&self, other: &Value) -> (r: Value)
        ensures
            r == Value::Boolean(BooleanValue { value: false }),
    {
        BooleanValue::create(false)
    }

    /// Arithmetic on a boolean degrades to the neutral `false`.
    pub fn reminder(&self, other: &Value) -> (r: Value)
        ensures
            r == Value::Boolean(BooleanValue { value: false }),
    {
        BooleanValue::create(false)
    }

    /// Arithmetic on a boolean degrades to the neutral `false`.
    pub fn plus(&self, other: &Value) -> (r: Value)
        ensures
            r == Value::Boolean(BooleanValue { value: false }),
    {
        BooleanValue::create(false)
    }

    /// Arithmetic on a boolean degrades to the neutral `false`.
    pub fn minus(&self, other: &Value) -> (r: Value)
        ensures
            r == Value::Boolean(BooleanValue { value: false }),
    {
        BooleanValue::create(false)
    }

    /// Booleans contain nothing.
    pub fn contains(&self, other: &Value) -> (r: BooleanValue)
        ensures
            r == (BooleanValue { value: false }),
    {
        BooleanValue::new(false)
    }

    /// Exact match of kind and value.
    pub fn equals(&self, other: &Value) -> (r: BooleanValue)
        ensures
            r == (BooleanValue {
                value: *other matches Value::Boolean(b) && b.value == self.value,
            }),
    {
        match other {
            Value::Boolean(boolean) => BooleanValue::new(boolean.value == self.value),
            _ => BooleanValue::new(false),
        }
    }

    /// Booleans are unordered: always `0`.
    pub fn compare(&self, other: &Value) -> (r: NumberValue)
        ensures
            r == (NumberValue { value: 0 }),
    {
        NumberValue::new(0)
    }
}

/// What `to_string` returns, at the specification level.
pub open spec fn spec_boolean_string(value: bool) -> Seq<char> {
    if value {
        "True"@
    } else {
        "False"@
    }
}

} // verus!
