use puffin::ast::OpKind;
use puffin::text::{i64_to_string, parse_i64, u64_to_octal_string, u64_to_string};
use puffin::types::{SpecialValue, SpecialValueKind, Value};

fn num(i: i64) -> Value {
    Value::Int(i)
}

fn txt(s: &str) -> Value {
    Value::String(s.to_string())
}

fn op(l: Value, r: Value, op: OpKind) -> Result<Value, String> {
    l.binary_op(r, op).map_err(|e| e.message().clone())
}

#[test]
fn truthiness() {
    assert_eq!(num(0).is_truthy().unwrap(), false);
    assert_eq!(num(-1).is_truthy().unwrap(), true);
    assert_eq!(txt("").is_truthy().unwrap(), false);
    assert_eq!(txt("0").is_truthy().unwrap(), true);
    assert_eq!(Value::Boolean(true).is_truthy().unwrap(), true);
    assert_eq!(Value::Boolean(false).is_truthy().unwrap(), false);
    let err = SpecialValue::new(1, SpecialValueKind::Ino).is_truthy().unwrap_err();
    assert_eq!(err.message(), "Cannot evaluate a special value as a boolean");
}

#[test]
fn conversion_to_integer() {
    assert_eq!(num(-7).to_signed_int().unwrap(), -7);
    assert_eq!(txt("42").to_signed_int().unwrap(), 42);
    assert_eq!(txt("-42").to_signed_int().unwrap(), -42);
    assert_eq!(txt("+42").to_signed_int().unwrap(), 42);
    assert_eq!(txt("4 2").to_signed_int().unwrap(), 0);
    assert_eq!(txt("").to_signed_int().unwrap(), 0);
    assert_eq!(txt("abc").to_signed_int().unwrap(), 0);
    assert_eq!(txt("99999999999999999999").to_signed_int().unwrap(), 0);
    assert_eq!(Value::Boolean(true).to_signed_int().unwrap(), 1);
    assert_eq!(Value::Boolean(false).to_signed_int().unwrap(), 0);
    let err = SpecialValue::new(1, SpecialValueKind::Uid).to_signed_int().unwrap_err();
    assert_eq!(err.message(), "Cannot evaluate a special value as an integer");
}

#[test]
fn parsing_of_integers() {
    assert_eq!(parse_i64("0"), Some(0));
    assert_eq!(parse_i64("-0"), Some(0));
    assert_eq!(parse_i64("007"), Some(7));
    assert_eq!(parse_i64("9223372036854775807"), Some(i64::MAX));
    assert_eq!(parse_i64("9223372036854775808"), None);
    assert_eq!(parse_i64("-9223372036854775808"), Some(i64::MIN));
    assert_eq!(parse_i64("-9223372036854775809"), None);
    assert_eq!(parse_i64("92233720368547758070"), None);
    assert_eq!(parse_i64(""), None);
    assert_eq!(parse_i64("-"), None);
    assert_eq!(parse_i64("+"), None);
    assert_eq!(parse_i64("--1"), None);
    assert_eq!(parse_i64("1-"), None);
    assert_eq!(parse_i64(" 1"), None);
    assert_eq!(parse_i64("١"), None);
}

#[test]
fn text_of_integers() {
    assert_eq!(i64_to_string(0), "0");
    assert_eq!(i64_to_string(10), "10");
    assert_eq!(i64_to_string(-10), "-10");
    assert_eq!(i64_to_string(i64::MAX), "9223372036854775807");
    assert_eq!(i64_to_string(i64::MIN), "-9223372036854775808");
    assert_eq!(u64_to_string(u64::MAX), "18446744073709551615");
    assert_eq!(u64_to_octal_string(0), "0o0");
    assert_eq!(u64_to_octal_string(8), "0o10");
    assert_eq!(u64_to_octal_string(0o100644), "0o100644");
}

#[test]
fn arithmetic() {
    assert_eq!(op(num(2), num(3), OpKind::Plus), Ok(num(5)));
    assert_eq!(op(num(2), num(3), OpKind::Minus), Ok(num(-1)));
    assert_eq!(op(num(2), num(3), OpKind::Multiply), Ok(num(6)));
    assert_eq!(op(num(7), num(2), OpKind::Divide), Ok(num(3)));
    assert_eq!(op(num(-7), num(2), OpKind::Divide), Ok(num(-3)));
    assert_eq!(op(num(7), num(-2), OpKind::Divide), Ok(num(-3)));
    assert_eq!(op(num(-7), num(-2), OpKind::Divide), Ok(num(3)));
    assert_eq!(op(txt("4"), Value::Boolean(true), OpKind::Plus), Ok(num(5)));
    assert_eq!(op(txt("x"), txt("3"), OpKind::Multiply), Ok(num(0)));
}

#[test]
fn arithmetic_wraps() {
    assert_eq!(op(num(i64::MAX), num(1), OpKind::Plus), Ok(num(i64::MIN)));
    assert_eq!(op(num(i64::MIN), num(1), OpKind::Minus), Ok(num(i64::MAX)));
    assert_eq!(op(num(i64::MAX), num(2), OpKind::Multiply), Ok(num(-2)));
    assert_eq!(op(num(i64::MIN), num(-1), OpKind::Multiply), Ok(num(i64::MIN)));
    assert_eq!(op(num(i64::MIN), num(-1), OpKind::Divide), Ok(num(i64::MIN)));
}

#[test]
fn division_by_zero() {
    assert_eq!(op(num(1), num(0), OpKind::Divide), Err("Division by zero".to_string()));
    assert_eq!(op(num(0), txt("zero"), OpKind::Divide), Err("Division by zero".to_string()));
}

#[test]
fn ordering() {
    assert_eq!(op(num(2), num(3), OpKind::Less), Ok(Value::Boolean(true)));
    assert_eq!(op(num(3), num(3), OpKind::Less), Ok(Value::Boolean(false)));
    assert_eq!(op(num(3), num(3), OpKind::LessEqual), Ok(Value::Boolean(true)));
    assert_eq!(op(num(3), num(3), OpKind::Greater), Ok(Value::Boolean(false)));
    assert_eq!(op(num(3), num(3), OpKind::GreaterEqual), Ok(Value::Boolean(true)));
    assert_eq!(op(txt("10"), txt("9"), OpKind::Greater), Ok(Value::Boolean(true)));
    assert_eq!(
        op(SpecialValue::new(3, SpecialValueKind::Ino), num(3), OpKind::LessEqual),
        Err("Cannot evaluate a special value as an integer".to_string())
    );
}

#[test]
fn logical_operators() {
    assert_eq!(op(num(1), txt("a"), OpKind::And), Ok(Value::Boolean(true)));
    assert_eq!(op(num(1), txt(""), OpKind::And), Ok(Value::Boolean(false)));
    assert_eq!(op(num(0), txt(""), OpKind::Or), Ok(Value::Boolean(false)));
    assert_eq!(op(num(0), txt("a"), OpKind::Or), Ok(Value::Boolean(true)));
    assert_eq!(
        op(num(0), SpecialValue::new(3, SpecialValueKind::Ino), OpKind::And),
        Err("Cannot evaluate a special value as a boolean".to_string())
    );
}

#[test]
fn equality_is_structural() {
    assert_eq!(op(num(1), num(1), OpKind::EqualEqual), Ok(Value::Boolean(true)));
    assert_eq!(op(num(1), num(2), OpKind::EqualEqual), Ok(Value::Boolean(false)));
    assert_eq!(op(num(1), txt("1"), OpKind::EqualEqual), Ok(Value::Boolean(false)));
    assert_eq!(op(num(1), Value::Boolean(true), OpKind::EqualEqual), Ok(Value::Boolean(false)));
    assert_eq!(op(txt("a"), txt("a"), OpKind::EqualEqual), Ok(Value::Boolean(true)));
    assert_eq!(op(txt("a"), txt("b"), OpKind::EqualEqual), Ok(Value::Boolean(false)));
}

#[test]
fn equality_of_special_values() {
    let ino = |n| SpecialValue::new(n, SpecialValueKind::Ino);
    let uid = |n| SpecialValue::new(n, SpecialValueKind::Uid);
    assert_eq!(op(ino(5), ino(5), OpKind::EqualEqual), Ok(Value::Boolean(true)));
    assert_eq!(op(ino(5), ino(6), OpKind::EqualEqual), Ok(Value::Boolean(false)));
    assert_eq!(op(ino(5), num(5), OpKind::EqualEqual), Ok(Value::Boolean(true)));
    assert_eq!(op(num(5), ino(5), OpKind::EqualEqual), Ok(Value::Boolean(true)));
    assert_eq!(op(num(6), ino(5), OpKind::EqualEqual), Ok(Value::Boolean(false)));
    assert_eq!(
        op(ino(5), uid(5), OpKind::EqualEqual),
        Err("Cannot compare a special value to a value of another type".to_string())
    );
    assert_eq!(
        op(ino(5), txt("5"), OpKind::EqualEqual),
        Err("Cannot compare a special value to a value of another type".to_string())
    );
    assert_eq!(
        op(Value::Boolean(true), ino(1), OpKind::EqualEqual),
        Err("Cannot compare a special value to a value of another type".to_string())
    );
    assert_eq!(
        op(ino(5), num(-5), OpKind::EqualEqual),
        Err("Cannot compare a special value to a negative integer".to_string())
    );
    // A number too large for a signed integer is equal to no integer.
    assert_eq!(op(ino(u64::MAX), num(i64::MAX), OpKind::EqualEqual), Ok(Value::Boolean(false)));
}

#[test]
fn special_values_take_no_other_operator() {
    let mode = match SpecialValue::new(0o644, SpecialValueKind::Mode) {
        Value::Special(s) => s,
        _ => unreachable!(),
    };
    let r = mode.binary_op(OpKind::Plus, num(1)).map_err(|e| e.message().clone());
    assert_eq!(r, Err("Cannot apply this operator to a special value".to_string()));
    let r = mode.binary_op(OpKind::EqualEqual, num(0o644)).map_err(|e| e.message().clone());
    assert_eq!(r, Ok(Value::Boolean(true)));
}

#[test]
fn text_of_values() {
    assert_eq!(num(-3).to_text(), "-3");
    assert_eq!(txt("a b").to_text(), "a b");
    assert_eq!(Value::Boolean(true).to_text(), "True");
    assert_eq!(Value::Boolean(false).to_text(), "False");
    assert_eq!(SpecialValue::new(0o100644, SpecialValueKind::Mode).to_text(), "0o100644");
    assert_eq!(SpecialValue::new(1000, SpecialValueKind::Uid).to_text(), "1000");
    assert_eq!(SpecialValue::new(12, SpecialValueKind::Ino).to_text(), "12");
    assert_eq!(SpecialValue::new(2049, SpecialValueKind::Devno).to_text(), "2049");
}

#[test]
fn sameness_of_values() {
    assert!(num(1).same(&num(1)));
    assert!(!num(1).same(&txt("1")));
    assert!(txt("é").same(&txt("é")));
    assert!(!Value::Boolean(true).same(&num(1)));
    assert!(SpecialValue::new(1, SpecialValueKind::Ino)
        .same(&SpecialValue::new(1, SpecialValueKind::Ino)));
    assert!(!SpecialValue::new(1, SpecialValueKind::Ino)
        .same(&SpecialValue::new(1, SpecialValueKind::Uid)));
    assert_eq!(txt("x").clone(), txt("x"));
}
