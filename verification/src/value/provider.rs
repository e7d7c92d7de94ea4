//! The `Provider` kind: a deferred handle that wraps another value, used to
//! pass a reference rather than a copy into a pipeline stage. A pipeline
//! unwraps one level of provider when the wrapped value reaches the front of
//! a stage.

use vstd::prelude::*;

use crate::value::Value;
use crate::value::boolean::BooleanValue;
use crate::value::none::NoneValue;
use crate::value::number::NumberValue;

verus! {

/// The payload of the `Provider` kind.
#[derive(Debug)]
pub struct ProviderValue {
    /// The wrapped value.
    pub delegate: Box<Value>,
}

impl ProviderValue {
    /// A fresh `ProviderValue` payload around a wrapped value.
    pub fn new(delegate: Value) -> (r: ProviderValue)
        ensures
            r == (ProviderValue { delegate: Box::new(delegate) }),
    {
        ProviderValue { delegate: Box::new(delegate) }
    }

    /// A fresh `Provider` value around a wrapped value.
    pub fn create(delegate: Value) -> (r: Value)
        ensures
            r == Value::Provider(ProviderValue { delegate: Box::new(delegate) }),
    {
        Value::Provider(ProviderValue::new(delegate))
    }

    /// The tag that names this kind in diagnostics.
    pub fn get_type_name(&self) -> (r: &'static str)
        ensures
            r@ == "Provider"@,
    {
        "Provider"
    }

    /// Providers have no readable text.
    pub fn to_string(&self) -> (r: String)
        ensures
            r@ == "[value provider]"@,
    {
        "[value provider]".to_owned()
    }

    /// Providers cannot be indexed.
    pub fn get(&self, subscripts: &Vec<Value>) -> (r: Value)
        ensures
            r == Value::Nothing(NoneValue {  }),
    {
        NoneValue::create()
    }

    /// Providers cannot be index-assigned.
    pub fn set(&self, subscripts: &Vec<Value>, value: Value) -> (r: Value)
        ensures
            r == Value::Nothing(NoneValue {  }),
    {
        NoneValue::create()
    }

    /// Arithmetic on a provider degrades to `Nothing`.
    pub fn unary_plus(&self) -> (r: Value)
        ensures
            r == Value::Nothing(NoneValue {  }),
    {
        NoneValue::create()
    }

    /// Arithmetic on a provider degrades to `Nothing`.
    pub fn unary_minus(&self) -> (r: Value)
        ensures
            r == Value::Nothing(NoneValue {  }),
    {
        NoneValue::create()
    }

    /// Arithmetic on a provider degrades to `Nothing`.
    pub fn not(&self) -> (r: Value)
        ensures
            r == Value::Nothing(NoneValue {  }),
    {
        NoneValue::create()
    }

    /// Arithmetic on a provider degrades to `Nothing`.
    pub fn power(&self, other: &Value) -> (r: Value)
        ensures
            r == Value::Nothing(NoneValue {  }),
    {
        NoneValue::create()
    }

    /// Arithmetic on a provider degrades to `Nothing`.
    pub fn times(&self, other: &Value) -> (r: Value)
        ensures
            r == Value::Nothing(NoneValue {  }),
    {
        NoneValue::create()
    }

    /// Arithmetic on a provider degrades to `Nothing`.
    pub fn divide(&self, other: &Value) -> (r: Value)
        ensures
            r == Value::Nothing(NoneValue {  }),
    {
        NoneValue::create()
    }

    /// Arithmetic on a provider degrades to `Nothing`.
    pub fn reminder(&self, other: &Value) -> (r: Value)
        ensures
            r == Value::Nothing(NoneValue {  }),
    {
        NoneValue::create()
    }

    /// Arithmetic on a provider degrades to `Nothing`.
    pub fn plus(&self, other: &Value) -> (r: Value)
        ensures
            r == Value::Nothing(NoneValue {  }),
    {
        NoneValue::create()
    }

    /// Arithmetic on a provider degrades to `Nothing`.
    pub fn minus(&self, other: &Value) -> (r: Value)
        ensures
            r == Value::Nothing(NoneValue {  }),
    {
        NoneValue::create()
    }

    /// Providers contain nothing.
    pub fn contains(&self, other: &Value) -> (r: BooleanValue)
        ensures
            r == (BooleanValue { value: false }),
    {
        BooleanValue::new(false)
    }

    /// Providers compare equal to nothing.
    pub fn equals(&self, other: &Value) -> (r: BooleanValue)
        ensures
            r == (BooleanValue { value: false }),
    {
        BooleanValue::new(false)
    }

    /// Providers are unordered: always `0`.
    pub fn compare(&self, other: &Value) -> (r: NumberValue)
        ensures
            r == (NumberValue { value: 0 }),
    {
        NumberValue::new(0)
    }
}

} // verus!
