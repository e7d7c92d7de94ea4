//! The `Nothing` kind: the neutral result that every unsupported operation
//! falls back to. All of its own operations are no-ops.

use vstd::prelude::*;

use crate::value::Value;
use crate::value::boolean::BooleanValue;
use crate::value::number::NumberValue;

verus! {

/// The payload of the `Nothing` kind. It carries no data; it exists so that
/// the kind owns its operations like every other kind does.
#[derive(Clone, Copy, Debug)]
pub struct NoneValue {}

impl NoneValue {
    /// A fresh `NoneValue` payload.
    pub fn new() -> (r: NoneValue)
        ensures
            r == (NoneValue {  }),
    {
        NoneValue {}
    }

    /// A fresh `Nothing` value.
    pub fn create() -> (r: Value)
        ensures
            r == Value::Nothing(NoneValue {  }),
    {
        Value::Nothing(NoneValue::new())
    }

    /// The tag that names this kind in diagnostics.
    pub fn get_type_name(&self) -> (r: &'static str)
        ensures
            r@ == "NoneType"@,
    {
        "NoneType"
    }

    /// The spelling of the absent value.
    pub fn to_string(&self) -> (r: String)
        ensures
            r@ == "None"@,
    {
        "None".to_owned()
    }

    /// Nothing cannot be indexed.
    pub fn get(&self, subscripts: &Vec<Value>) -> (r: Value)
        ensures
            r == Value::Nothing(NoneValue {  }),
    {
        NoneValue::create()
    }

    /// Nothing cannot be index-assigned.
    pub fn set(&self, subscripts: &Vec<Value>, value: Value) -> (r: Value)
        ensures
            r == Value::Nothing(NoneValue {  }),
    {
        NoneValue::create()
    }

    /// Arithmetic on nothing stays nothing.
    pub fn unary_plus(&self) -> (r: Value)
        ensures
            r == Value::Nothing(NoneValue {  }),
    {
        NoneValue::create()
    }

    /// Arithmetic on nothing stays nothing.
    pub fn unary_minus(&self) -> (r: Value)
        ensures
            r == Value::Nothing(NoneValue {  }),
    {
        NoneValue::create()
    }

    /// Arithmetic on nothing stays nothing.
    pub fn not(&self) -> (r: Value)
        ensures
            r == Value::Nothing(NoneValue {  }),
    {
        NoneValue::create()
    }

    /// Arithmetic on nothing stays nothing.
    pub fn power(&self, other: &Value) -> (r: Value)
        ensures
            r == Value::Nothing(NoneValue {  }),
    {
        NoneValue::create()
    }

    /// Arithmetic on nothing stays nothing.
    pub fn times(&self, other: &Value) -> (r: Value)
        ensures
            r == Value::Nothing(NoneValue {  }),
    {
        NoneValue::create()
    }

    /// Arithmetic on nothing stays nothing.
    pub fn divide(&self, other: &Value) -> (r: Value)
        ensures
            r == Value::Nothing(NoneValue {  }),
    {
        NoneValue::create()
    }

    /// Arithmetic on nothing stays nothing.
    pub fn reminder(&self, other: &Value) -> (r: Value)
        ensures
            r == Value::Nothing(NoneValue {  }),
    {
        NoneValue::create()
    }

    /// Arithmetic on nothing stays nothing.
    pub fn plus(&self, other: &Value) -> (r: Value)
        ensures
            r == Value::Nothing(NoneValue {  }),
    {
        NoneValue::create()
    }

    /// Arithmetic on nothing stays nothing.
    pub fn minus(&self, other: &Value) -> (r: Value)
        ensures
            r == Value::Nothing(NoneValue {  }),
    {
        NoneValue::create()
    }

    /// Nothing contains nothing.
    pub fn contains(&self, other: &Value) -> (r: BooleanValue)
        ensures
            r == (BooleanValue { value: false }),
    {
        BooleanValue::new(false)
    }

    /// True exactly of another `Nothing` value.
    pub fn equals(&self, other: &Value) -> (r: BooleanValue)
        ensures
            r == (BooleanValue { value: *other matches Value::Nothing(_) }),
    {
        match other {
            Value::Nothing(_) => BooleanValue::new(true),
            _ => BooleanValue::new(false),
        }
    }

    /// Nothing is unordered: always `0`.
    pub fn compare(&self, other: &Value) -> (r: NumberValue)
        ensures
            r == (NumberValue { value: 0 }),
    {
        NumberValue::new(0)
    }
}

} // verus!
