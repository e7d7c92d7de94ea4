//! The `Closure` kind: a handle to a shared closure record. The record holds
//! the declared parameter list, the unevaluated body, and the environment
//! captured when the closure literal was evaluated. Copying a closure value
//! copies the handle, never the record.

use vstd::prelude::*;

use crate::ast::Node;
use crate::value::Value;
use crate::value::boolean::BooleanValue;
use crate::value::none::NoneValue;
use crate::value::number::NumberValue;

verus! {

/// One closure record, stored in the evaluator's closure table and shared by
/// every copy of the closure value that was created from it.
#[derive(Debug)]
pub struct ClosureData {
    /// The declared parameter names, a `ClosureArguments` node.
    pub arguments: Node,
    /// The unevaluated body, evaluated once per call.
    pub body: Node,
    /// The handle of the environment captured at definition time.
    pub scope: usize,
}

/// The payload of the `Closure` kind: a handle into the closure table.
#[derive(Clone, Copy, Debug)]
pub struct ClosureValue {
    pub data: usize,
}

impl ClosureValue {
    /// A fresh `ClosureValue` payload around a record handle.
    pub fn new(data: usize) -> (r: ClosureValue)
        ensures
            r == (ClosureValue { data }),
    {
        ClosureValue { data }
    }

    /// A fresh `Closure` value around a record handle.
    pub fn create(data: usize) -> (r: Value)
        ensures
            r == Value::Closure(ClosureValue { data }),
    {
        Value::Closure(ClosureValue::new(data))
    }

    /// The tag that names this kind in diagnostics.
    pub fn get_type_name(&self) -> (r: &'static str)
        ensures
            r@ == "Closure"@,
    {
        "Closure"
    }

    /// Closures have no readable text.
    pub fn to_string(&self) -> (r: String)
        ensures
            r@ == "[closure]"@,
    {
        "[closure]".to_owned()
    }

    /// Closures cannot be indexed.
    pub fn get(&self, subscripts: &Vec<Value>) -> (r: Value)
        ensures
            r == Value::Nothing(NoneValue {  }),
    {
        NoneValue::create()
    }

    /// Closures cannot be index-assigned.
    pub fn set(&self, subscripts: &Vec<Value>, value: Value) -> (r: Value)
        ensures
            r == Value::Nothing(NoneValue {  }),
    {
        NoneValue::create()
    }

    /// Arithmetic on a closure degrades to `Nothing`.
    pub fn unary_plus(&self) -> (r: Value)
        ensures
            r == Value::Nothing(NoneValue {  }),
    {
        NoneValue::create()
    }

    /// Arithmetic on a closure degrades to `Nothing`.
    pub fn unary_minus(&self) -> (r: Value)
        ensures
            r == Value::Nothing(NoneValue {  }),
    {
        NoneValue::create()
    }

    /// Arithmetic on a closure degrades to `Nothing`.
    pub fn not(&self) -> (r: Value)
        ensures
            r == Value::Nothing(NoneValue {  }),
    {
        NoneValue::create()
    }

    /// Arithmetic on a closure degrades to `Nothing`.
    pub fn power(&self, other: &Value) -> (r: Value)
        ensures
            r == Value::Nothing(NoneValue {  }),
    {
        NoneValue::create()
    }

    /// Arithmetic on a closure degrades to `Nothing`.
    pub fn times(&self, other: &Value) -> (r: Value)
        ensures
            r == Value::Nothing(NoneValue {  }),
    {
        NoneValue::create()
    }

    /// Arithmetic on a closure degrades to `Nothing`.
    pub fn divide(&self, other: &Value) -> (r: Value)
        ensures
            r == Value::Nothing(NoneValue {  }),
    {
        NoneValue::create()
    }

    /// Arithmetic on a closure degrades to `Nothing`.
    pub fn reminder(&self, other: &Value) -> (r: Value)
        ensures
            r == Value::Nothing(NoneValue {  }),
    {
        NoneValue::create()
    }

    /// Arithmetic on a closure degrades to `Nothing`.
    pub fn plus(&self, other: &Value) -> (r: Value)
        ensures
            r == Value::Nothing(NoneValue {  }),
    {
        NoneValue::create()
    }

    /// Arithmetic on a closure degrades to `Nothing`.
    pub fn minus(&self, other: &Value) -> (r: Value)
        ensures
            r == Value::Nothing(NoneValue {  }),
    {
        NoneValue::create()
    }

    /// Closures contain nothing.
    pub fn contains(&self, other: &Value) -> (r: BooleanValue)
        ensures
            r == (BooleanValue { value: false }),
    {
        BooleanValue::new(false)
    }

    /// Closures compare equal to nothing.
    pub fn equals(&self, other: &Value) -> (r: BooleanValue)
        ensures
            r == (BooleanValue { value: false }),
    {
        BooleanValue::new(false)
    }

    /// Closures are unordered: always `0`.
    pub fn compare(&self, other: &Value) -> (r: NumberValue)
        ensures
            r == (NumberValue { value: 0 }),
    {
        NumberValue::new(0)
    }
}

} // verus!
