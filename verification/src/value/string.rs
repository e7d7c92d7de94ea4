//! The `String` kind: concatenation, repetition, indexing with negative
//! offsets, substring containment, and the documented quirk that ordering
//! compares lengths, not contents.

use vstd::prelude::*;
use vstd::string::StrSliceExecFns;
use vstd::string::StringExecFns;

use crate::text::char_string;
use crate::text::concat_strings;
use crate::value::Value;
use crate::value::boolean::BooleanValue;
use crate::value::none::NoneValue;
use crate::value::number::NumberValue;

verus! {

/// The payload of the `String` kind.
#[derive(Clone, Debug)]
pub struct StringValue {
    pub value: String,
}

/// True when `needle` occurs contiguously inside `hay`.
pub open spec fn spec_str_contains(hay: Seq<char>, needle: Seq<char>) -> bool {
    exists|i: int|
        0 <= i && i + needle.len() <= hay.len() && #[trigger] hay.subrange(
            i,
            i + needle.len() as int,
        ) == needle
}

/// The string repeated `n` times.
pub open spec fn spec_repeat(s: Seq<char>, n: int) -> Seq<char>
    decreases n,
{
    if n <= 0 {
        Seq::empty()
    } else {
        spec_repeat(s, n - 1) + s
    }
}

/// The sign of a length difference.
pub open spec fn spec_sign(d: int) -> i32 {
    if d == 0 {
        0i32
    } else if d > 0 {
        1i32
    } else {
        -1i32
    }
}

fn string_contains(hay: &String, needle: &String) -> (r: bool)
    ensures
        r == spec_str_contains(hay@, needle@),
{
    let hay_len = hay.as_str().unicode_len();
    let needle_len = needle.as_str().unicode_len();
    if needle_len > hay_len {
        return false;
    }
    let mut start: usize = 0;
    while start <= hay_len - needle_len
        invariant
            needle_len <= hay_len,
            hay_len == hay@.len(),
            needle_len == needle@.len(),
            start <= hay_len - needle_len + 1,
            forall|i: int|
                0 <= i < start ==> #[trigger] hay@.subrange(i, i + needle@.len() as int)
                    != needle@,
        decreases hay_len - needle_len + 1 - start,
    {
        let mut offset: usize = 0;
        let mut all_match = true;
        while offset < needle_len && all_match
            invariant
                needle_len <= hay_len,
                hay_len == hay@.len(),
                needle_len == needle@.len(),
                start + needle_len <= hay_len,
                offset <= needle_len,
                all_match ==> forall|j: int| 0 <= j < offset ==> hay@[start + j] == needle@[j],
                !all_match ==> exists|j: int|
                    0 <= j < needle@.len() && #[trigger] hay@[start + j] != needle@[j],
            decreases needle_len - offset,
        {
            if hay.as_str().get_char(start + offset) != needle.as_str().get_char(offset) {
                all_match = false;
                proof {
                    assert(hay@[start as int + offset as int] != needle@[offset as int]);
                }
            }
            offset = offset + 1;
        }
        if all_match {
            proof {
                assert(hay@.subrange(start as int, start as int + needle@.len() as int)
                    =~= needle@);
            }
            return true;
        }
        proof {
            assert(hay@.subrange(start as int, start as int + needle@.len() as int) != needle@)
                by {
                let piece = hay@.subrange(start as int, start as int + needle@.len() as int);
                let j = choose|j: int|
                    0 <= j < needle@.len() && #[trigger] hay@[start + j] != needle@[j];
                assert(piece[j] != needle@[j]);
            }
        }
        start = start + 1;
    }
    proof {
        assert(forall|i: int|
            0 <= i && i + needle@.len() <= hay@.len() ==> #[trigger] hay@.subrange(
                i,
                i + needle@.len() as int,
            ) != needle@);
    }
    false
}

impl StringValue {
    /// A fresh `StringValue` payload.
    pub fn new(value: &str) -> (r: StringValue)
        ensures
            r.value@ == value@,
    {
        StringValue { value: value.to_owned() }
    }

    /// A fresh `String` value.
    pub fn create(initial: &str) -> (r: Value)
        ensures
            r matches Value::Str(s) && s.value@ == initial@,
    {
        Value::Str(StringValue::new(initial))
    }

    /// The tag that names this kind in diagnostics.
    pub fn get_type_name(&self) -> (r: &'static str)
        ensures
            r@ == "String"@,
    {
        "String"
    }

    /// The carried text itself.
    pub fn to_string(&self) -> (r: String)
        ensures
            r@ == self.value@,
    {
        self.value.clone()
    }

    /// Indexing with one numeric subscript: a negative index counts from the
    /// end; anything out of range, or any other subscript shape, yields
    /// `Nothing`.
    pub fn get(&self, subscripts: &Vec<Value>) -> (r: Value)
        ensures
            match spec_string_get(self.value@, subscripts@) {
                Some(t) => r matches Value::Str(s) && s.value@ == t,
                None => r == Value::Nothing(NoneValue {  }),
            },
    {
        if subscripts.len() != 1 {
            return NoneValue::create();
        }
        match &subscripts[0] {
            Value::Number(number) => {
                let len = self.value.as_str().unicode_len();
                let idx = number.value as i64;
                if len > i32::MAX as usize {
                    return NoneValue::create();
                }
                if idx >= len as i64 || idx < -(len as i64) {
                    return NoneValue::create();
                }
                let actual: usize = if idx < 0 {
                    (idx + len as i64) as usize
                } else {
                    idx as usize
                };
                let c = self.value.as_str().get_char(actual);
                StringValue::create(char_string(c).as_str())
            },
            _ => NoneValue::create(),
        }
    }

    /// Strings cannot be index-assigned.
    pub fn set(&self, subscripts: &Vec<Value>, value: Value) -> (r: Value)
        ensures
            r == Value::Nothing(NoneValue {  }),
    {
        NoneValue::create()
    }

    /// Unary plus prefixes the sign character.
    pub fn unary_plus(&self) -> (r: Value)
        ensures
            r matches Value::Str(s) && s.value@ == seq!['+'] + self.value@,
    {
        let mut concatenated = char_string('+');
        concatenated.append(self.value.as_str());
        Value::Str(StringValue { value: concatenated })
    }

    /// Unary minus prefixes the sign character.
    pub fn unary_minus(&self) -> (r: Value)
        ensures
            r matches Value::Str(s) && s.value@ == seq!['-'] + self.value@,
    {
        let mut concatenated = char_string('-');
        concatenated.append(self.value.as_str());
        Value::Str(StringValue { value: concatenated })
    }

    /// Strings cannot be negated.
    pub fn not(&self) -> (r: Value)
        ensures
            r == Value::Nothing(NoneValue {  }),
    {
        NoneValue::create()
    }

    /// Strings cannot be raised to a power.
    pub fn power(&self, other: &Value) -> (r: Value)
        ensures
            r == Value::Nothing(NoneValue {  }),
    {
        NoneValue::create()
    }

    /// Repetition: a non-negative number of copies; a negative count, or a
    /// non-number operand, yields `Nothing`.
    pub fn times(&self, other: &Value) -> (r: Value)
        ensures
            match spec_string_times(self.value@, *other) {
                Some(t) => r matches Value::Str(s) && s.value@ == t,
                None => r == Value::Nothing(NoneValue {  }),
            },
    {
        match other {
            Value::Number(number) => {
                if number.value < 0 {
                    return NoneValue::create();
                }
                let mut repeated = String::new();
                let mut copies: i32 = 0;
                while copies < number.value
                    invariant
                        0 <= copies <= number.value,
                        repeated@ == spec_repeat(self.value@, copies as int),
                    decreases number.value - copies,
                {
                    repeated.append(self.value.as_str());
                    copies = copies + 1;
                }
                Value::Str(StringValue { value: repeated })
            },
            _ => NoneValue::create(),
        }
    }

    /// Strings cannot be divided.
    pub fn divide(&self, other: &Value) -> (r: Value)
        ensures
            r == Value::Nothing(NoneValue {  }),
    {
        NoneValue::create()
    }

    /// Strings have no remainder.
    pub fn reminder(&self, other: &Value) -> (r: Value)
        ensures
            r == Value::Nothing(NoneValue {  }),
    {
        NoneValue::create()
    }

    /// Concatenation: the other operand is stringified and appended.
    pub fn plus(&self, other: &Value) -> (r: Value)
        ensures
            r matches Value::Str(s) && s.value@ == self.value@ + crate::value::spec_value_string(
                *other,
            ),
    {
        let rendered = other.to_string();
        let concatenated = concat_strings(&self.value, &rendered);
        Value::Str(StringValue { value: concatenated })
    }

    /// Strings cannot be subtracted.
    pub fn minus(&self, other: &Value) -> (r: Value)
        ensures
            r == Value::Nothing(NoneValue {  }),
    {
        NoneValue::create()
    }

    /// True when the other operand's string form occurs inside this string.
    pub fn contains(&self, other: &Value) -> (r: BooleanValue)
        ensures
            r == (BooleanValue {
                value: spec_str_contains(self.value@, crate::value::spec_value_string(*other)),
            }),
    {
        let rendered = other.to_string();
        BooleanValue::new(string_contains(&self.value, &rendered))
    }

    /// True when the other operand's string form spells this string.
    pub fn equals(&self, other: &Value) -> (r: BooleanValue)
        ensures
            r == (BooleanValue {
                value: self.value@ == crate::value::spec_value_string(*other),
            }),
    {
        let rendered = other.to_string();
        BooleanValue::new(self.value == rendered)
    }

    /// The documented quirk: ordering compares string lengths, not contents.
    pub fn compare(&self, other: &Value) -> (r: NumberValue)
        ensures
            r == (NumberValue {
                value: spec_sign(
                    self.value@.len() - crate::value::spec_value_string(*other).len(),
                ),
            }),
    {
        let rendered = other.to_string();
        let own_len = self.value.as_str().unicode_len();
        let other_len = rendered.as_str().unicode_len();
        if own_len == other_len {
            NumberValue::new(0)
        } else if own_len > other_len {
            NumberValue::new(1)
        } else {
            NumberValue::new(-1)
        }
    }
}

/// What `get` returns, at the specification level: the selected character
/// as a one-character string, or nothing.
pub open spec fn spec_string_get(s: Seq<char>, subscripts: Seq<Value>) -> Option<Seq<char>> {
    if subscripts.len() != 1 {
        None
    } else {
        match subscripts[0] {
            Value::Number(n) => {
                if s.len() > i32::MAX as int {
                    None
                } else if n.value >= s.len() || n.value < -(s.len() as int) {
                    None
                } else {
                    let actual = if n.value < 0 {
                        n.value + s.len()
                    } else {
                        n.value as int
                    };
                    Some(seq![s[actual]])
                }
            },
            _ => None,
        }
    }
}

/// What `times` returns, at the specification level: the repeated text, or
/// nothing.
pub open spec fn spec_string_times(s: Seq<char>, other: Value) -> Option<Seq<char>> {
    match other {
        Value::Number(n) => if n.value < 0 {
            None
        } else {
            Some(spec_repeat(s, n.value as int))
        },
        _ => None,
    }
}

} // verus!
