use cash::value::Value;
use cash::value::boolean::BooleanValue;
use cash::value::none::NoneValue;
use cash::value::number::NumberValue;
use cash::value::string::StringValue;

fn number(n: i32) -> Value {
    NumberValue::create(n)
}

fn text(s: &str) -> Value {
    StringValue::create(s)
}

fn as_number(v: &Value) -> i32 {
    match v {
        Value::Number(n) => n.value,
        _ => panic!("expected a number"),
    }
}

fn as_text(v: &Value) -> String {
    match v {
        Value::Str(s) => s.value.clone(),
        _ => panic!("expected a string"),
    }
}

fn is_nothing(v: &Value) -> bool {
    matches!(v, Value::Nothing(_))
}

#[test]
fn number_arithmetic_is_exact() {
    assert_eq!(as_number(&number(7).plus(&number(35))), 42);
    assert_eq!(as_number(&number(7).minus(&number(35))), -28);
    assert_eq!(as_number(&number(6).times(&number(7))), 42);
    assert_eq!(as_number(&number(-7).divide(&number(2))), -3);
    assert_eq!(as_number(&number(7).reminder(&number(3))), 1);
    assert_eq!(as_number(&number(2).power(&number(10))), 1024);
    assert_eq!(as_number(&number(5).power(&number(0))), 1);
    assert_eq!(as_number(&number(5).power(&number(-2))), 0);
}

#[test]
fn number_division_by_zero_degrades() {
    assert!(is_nothing(&number(1).divide(&number(0))));
    assert!(is_nothing(&number(1).reminder(&number(0))));
}

#[test]
fn number_wrapping_addition() {
    assert_eq!(as_number(&number(i32::MAX).plus(&number(1))), i32::MIN);
    assert_eq!(as_number(&number(i32::MIN).divide(&number(-1))), i32::MIN);
}

#[test]
fn number_renders_in_decimal() {
    assert_eq!(number(0).to_string(), "0");
    assert_eq!(number(-137).to_string(), "-137");
    assert_eq!(number(i32::MIN).to_string(), "-2147483648");
}

#[test]
fn arithmetic_neutrality_on_mismatched_kinds() {
    // numbers do not understand the other kinds
    assert!(is_nothing(&number(1).plus(&text("x"))));
    assert!(is_nothing(&number(1).times(&BooleanValue::create(true))));
    assert!(is_nothing(&number(1).divide(&NoneValue::create())));
    assert_eq!(Value::Number(NumberValue { value: 3 }).compare(&text("x")).value, 0);
    // booleans answer their neutral false
    match BooleanValue::create(true).plus(&number(1)) {
        Value::Boolean(b) => assert!(!b.value),
        _ => panic!("expected the neutral boolean"),
    }
    // nothing stays nothing
    assert!(is_nothing(&NoneValue::create().minus(&number(1))));
    // string repetition does not understand a non-number count
    assert!(is_nothing(&text("ab").times(&text("x"))));
}

#[test]
fn string_concatenation_stringifies_the_operand() {
    assert_eq!(as_text(&text("n=").plus(&number(5))), "n=5");
    assert_eq!(as_text(&text("b=").plus(&BooleanValue::create(true))), "b=True");
    assert_eq!(as_text(&text("v=").plus(&NoneValue::create())), "v=None");
}

#[test]
fn string_repetition_and_indexing() {
    assert_eq!(as_text(&text("ab").times(&number(3))), "ababab");
    assert_eq!(as_text(&text("ab").times(&number(0))), "");
    assert!(is_nothing(&text("ab").times(&number(-1))));

    let subject = text("hello");
    let mut subscripts = vec![number(1)];
    assert_eq!(as_text(&subject.get(&subscripts)), "e");
    subscripts = vec![number(-1)];
    assert_eq!(as_text(&subject.get(&subscripts)), "o");
    subscripts = vec![number(5)];
    assert!(is_nothing(&subject.get(&subscripts)));
    subscripts = vec![number(-6)];
    assert!(is_nothing(&subject.get(&subscripts)));
}

#[test]
fn string_containment_and_equality() {
    assert!(text("hello world").contains(&text("lo wo")).value);
    assert!(!text("hello").contains(&text("xyz")).value);
    assert!(text("hello").contains(&text("")).value);
    assert!(text("42").equals(&number(42)).value);
    assert!(!text("42").equals(&number(43)).value);
}

#[test]
fn string_ordering_compares_lengths() {
    // the documented quirk: ordering is by length, not contents
    assert_eq!(text("zz").compare(&text("aaa")).value, -1);
    assert_eq!(text("abc").compare(&text("zzz")).value, 0);
    assert_eq!(text("abcd").compare(&text("z")).value, 1);
}

#[test]
fn equality_is_kind_and_value_exact() {
    assert!(number(4).equals(&number(4)).value);
    assert!(!number(4).equals(&text("4")).value);
    assert!(NoneValue::create().equals(&NoneValue::create()).value);
    assert!(!NoneValue::create().equals(&number(0)).value);
    assert!(BooleanValue::create(false).equals(&BooleanValue::create(false)).value);
    assert!(!BooleanValue::create(false).equals(&NoneValue::create()).value);
}

#[test]
fn kind_names_are_stable() {
    assert_eq!(number(1).get_type_name(), "Number");
    assert_eq!(text("x").get_type_name(), "String");
    assert_eq!(NoneValue::create().get_type_name(), "NoneType");
    assert_eq!(BooleanValue::create(true).get_type_name(), "Boolean");
}

#[test]
fn duplicate_keeps_plain_values() {
    let copied = number(9).duplicate_or_move();
    assert_eq!(as_number(&copied), 9);
    let copied = text("word").duplicate_or_move();
    assert_eq!(as_text(&copied), "word");
}
