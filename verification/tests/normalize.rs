use rvk::json::{JsonValue, Member};
use rvk::objects::invariant_deserialize::{DecodeError, ToNum, ToStr};

fn text(s: &str) -> JsonValue {
    JsonValue::Str(s.to_string())
}

fn rejected(value: JsonValue, target: &str) -> DecodeError {
    DecodeError { value, target: target.to_string() }
}

#[test]
fn number_and_numeral_decode_alike() {
    for n in [i16::MIN, -32767, -1000, -1, 0, 1, 9, 10, 255, 32766, i16::MAX] {
        let number = ToNum::<i16>::deserialize(&JsonValue::Signed(n as i64));
        let numeral = ToNum::<i16>::deserialize(&text(&n.to_string()));
        assert_eq!(number, Ok(n));
        assert_eq!(numeral, Ok(n));
        if n >= 0 {
            assert_eq!(ToNum::<i16>::deserialize(&JsonValue::Unsigned(n as u64)), Ok(n));
        }
    }
    for n in [i64::MIN, -1, 0, 1, i64::MAX] {
        assert_eq!(ToNum::<i64>::deserialize(&JsonValue::Signed(n)), Ok(n));
        assert_eq!(ToNum::<i64>::deserialize(&text(&n.to_string())), Ok(n));
    }
    for n in [i8::MIN, -1, 0, 1, i8::MAX] {
        assert_eq!(ToNum::<i8>::deserialize(&JsonValue::Signed(n as i64)), Ok(n));
        assert_eq!(ToNum::<i8>::deserialize(&text(&n.to_string())), Ok(n));
    }
    for n in [i32::MIN, -1, 0, 1, i32::MAX] {
        assert_eq!(ToNum::<i32>::deserialize(&JsonValue::Signed(n as i64)), Ok(n));
        assert_eq!(ToNum::<i32>::deserialize(&text(&n.to_string())), Ok(n));
    }
}

#[test]
fn fractions_are_rejected_not_truncated() {
    let float = JsonValue::Float(format!("{}", 123.0_f64));
    assert_eq!(ToNum::<i64>::deserialize(&float), Err(rejected(JsonValue::Float("123".to_string()), "i64")));
    assert_eq!(ToNum::<i64>::deserialize(&text("123.0")), Err(rejected(text("123.0"), "i64")));
    assert_eq!(ToNum::<i64>::deserialize(&text("-123.0")), Err(rejected(text("-123.0"), "i64")));
    assert_eq!(ToNum::<i16>::deserialize(&text("123.5")), Err(rejected(text("123.5"), "i16")));
    let negative = JsonValue::Float(format!("{}", -123.5_f64));
    assert!(ToNum::<i32>::deserialize(&negative).is_err());
}

#[test]
fn a_string_that_is_no_numeral_is_rejected() {
    assert_eq!(ToNum::<i64>::deserialize(&text("-+")), Err(rejected(text("-+"), "i64")));
    assert_eq!(ToNum::<i16>::deserialize(&text("-+")), Err(rejected(text("-+"), "i16")));
    assert_eq!(ToNum::<i64>::deserialize(&text("")), Err(rejected(text(""), "i64")));
    assert_eq!(ToNum::<i64>::deserialize(&text("12 ")), Err(rejected(text("12 "), "i64")));
}

#[test]
fn an_integer_out_of_range_is_rejected() {
    assert_eq!(
        ToNum::<i16>::deserialize(&JsonValue::Unsigned(32768)),
        Err(rejected(JsonValue::Unsigned(32768), "i16"))
    );
    assert_eq!(
        ToNum::<i16>::deserialize(&JsonValue::Signed(-32769)),
        Err(rejected(JsonValue::Signed(-32769), "i16"))
    );
    assert_eq!(ToNum::<i16>::deserialize(&text("32768")), Err(rejected(text("32768"), "i16")));
    assert_eq!(ToNum::<i16>::deserialize(&text("-32769")), Err(rejected(text("-32769"), "i16")));
    assert_eq!(
        ToNum::<i64>::deserialize(&JsonValue::Unsigned(9223372036854775808)),
        Err(rejected(JsonValue::Unsigned(9223372036854775808), "i64"))
    );
    assert_eq!(
        ToNum::<i64>::deserialize(&text("9223372036854775808")),
        Err(rejected(text("9223372036854775808"), "i64"))
    );
    assert_eq!(ToNum::<i8>::deserialize(&JsonValue::Unsigned(128)), Err(rejected(JsonValue::Unsigned(128), "i8")));
    assert_eq!(ToNum::<i8>::deserialize(&JsonValue::Signed(-129)), Err(rejected(JsonValue::Signed(-129), "i8")));
    assert_eq!(
        ToNum::<i32>::deserialize(&JsonValue::Unsigned(2147483648)),
        Err(rejected(JsonValue::Unsigned(2147483648), "i32"))
    );
    assert_eq!(
        ToNum::<i32>::deserialize(&JsonValue::Signed(-2147483649)),
        Err(rejected(JsonValue::Signed(-2147483649), "i32"))
    );
}

#[test]
fn the_bounds_of_each_type_are_accepted() {
    assert_eq!(ToNum::<i8>::deserialize(&JsonValue::Unsigned(127)), Ok(127));
    assert_eq!(ToNum::<i8>::deserialize(&JsonValue::Signed(-128)), Ok(-128));
    assert_eq!(ToNum::<i16>::deserialize(&JsonValue::Unsigned(32767)), Ok(32767));
    assert_eq!(ToNum::<i16>::deserialize(&JsonValue::Signed(-32768)), Ok(-32768));
    assert_eq!(ToNum::<i32>::deserialize(&JsonValue::Unsigned(2147483647)), Ok(2147483647));
    assert_eq!(ToNum::<i32>::deserialize(&JsonValue::Signed(-2147483648)), Ok(-2147483648));
    assert_eq!(ToNum::<i64>::deserialize(&JsonValue::Unsigned(9223372036854775807)), Ok(i64::MAX));
    assert_eq!(ToNum::<i64>::deserialize(&JsonValue::Signed(i64::MIN)), Ok(i64::MIN));
}

#[test]
fn other_kinds_are_rejected_for_integers() {
    let others = || {
        vec![
            JsonValue::Null,
            JsonValue::Bool(true),
            JsonValue::Array(vec![JsonValue::Unsigned(1)]),
            JsonValue::Object(vec![Member { key: "value".to_string(), value: JsonValue::Unsigned(1) }]),
        ]
    };
    for (value, same) in others().into_iter().zip(others()) {
        assert_eq!(ToNum::<i64>::deserialize(&value), Err(rejected(same, "i64")));
    }
}

#[test]
fn other_kinds_are_rejected_for_strings() {
    let others = || {
        vec![
            JsonValue::Null,
            JsonValue::Bool(false),
            JsonValue::Array(vec![]),
            JsonValue::Object(vec![]),
        ]
    };
    for (value, same) in others().into_iter().zip(others()) {
        assert_eq!(ToStr::deserialize(&value), Err(rejected(same, "String")));
    }
}

#[test]
fn strings_are_taken_verbatim() {
    assert_eq!(ToStr::deserialize(&text("")), Ok("".to_string()));
    assert_eq!(ToStr::deserialize(&text(" 12 ")), Ok(" 12 ".to_string()));
    assert_eq!(ToStr::deserialize(&text("-+")), Ok("-+".to_string()));
    assert_eq!(ToStr::deserialize(&text("привет")), Ok("привет".to_string()));
}

#[test]
fn numbers_are_written_out_for_strings() {
    assert_eq!(ToStr::deserialize(&JsonValue::Unsigned(0)), Ok("0".to_string()));
    assert_eq!(ToStr::deserialize(&JsonValue::Unsigned(u64::MAX)), Ok("18446744073709551615".to_string()));
    assert_eq!(ToStr::deserialize(&JsonValue::Signed(i64::MIN)), Ok("-9223372036854775808".to_string()));
    assert_eq!(ToStr::deserialize(&JsonValue::Float(format!("{}", 0.5_f64))), Ok("0.5".to_string()));
    assert_eq!(ToStr::deserialize(&JsonValue::Float(format!("{}", -123.4_f64))), Ok("-123.4".to_string()));
}

#[test]
fn a_missing_field_is_absent() {
    assert_eq!(ToNum::<i64>::deserialize_opt(None), Ok(None));
    assert_eq!(ToNum::<i16>::deserialize_opt(None), Ok(None));
    assert_eq!(ToStr::deserialize_opt(None), Ok(None));
}

#[test]
fn a_field_that_is_there_is_decoded() {
    assert_eq!(ToNum::<i64>::deserialize_opt(Some(&JsonValue::Unsigned(5))), Ok(Some(5)));
    assert_eq!(ToNum::<i64>::deserialize_opt(Some(&text("-5"))), Ok(Some(-5)));
    assert_eq!(ToStr::deserialize_opt(Some(&JsonValue::Signed(-5))), Ok(Some("-5".to_string())));
    assert_eq!(ToStr::deserialize_opt(Some(&text("x"))), Ok(Some("x".to_string())));
}

#[test]
fn a_field_that_is_there_and_malformed_is_an_error() {
    assert_eq!(ToNum::<i64>::deserialize_opt(Some(&text("-+"))), Err(rejected(text("-+"), "i64")));
    assert_eq!(ToNum::<i64>::deserialize_opt(Some(&JsonValue::Null)), Err(rejected(JsonValue::Null, "i64")));
    assert_eq!(
        ToNum::<i16>::deserialize_opt(Some(&JsonValue::Unsigned(70000))),
        Err(rejected(JsonValue::Unsigned(70000), "i16"))
    );
    assert_eq!(ToStr::deserialize_opt(Some(&JsonValue::Null)), Err(rejected(JsonValue::Null, "String")));
}

#[test]
fn visitors_decode_each_kind() {
    assert_eq!(ToNum::<i16>::new().visit_u64(7), Ok(7));
    assert_eq!(ToNum::<i16>::new().visit_i64(-7), Ok(-7));
    assert_eq!(ToNum::<i16>::new().visit_str("+7"), Ok(7));
    assert_eq!(ToNum::<i16>::new().visit_u64(u64::MAX), Err(rejected(JsonValue::Unsigned(u64::MAX), "i16")));
    assert_eq!(ToNum::<i16>::new().visit_i64(i64::MIN), Err(rejected(JsonValue::Signed(i64::MIN), "i16")));
    assert_eq!(ToNum::<i16>::new().visit_str("seven"), Err(rejected(text("seven"), "i16")));
    assert_eq!(ToStr.visit_u64(7), Ok("7".to_string()));
    assert_eq!(ToStr.visit_i64(-7), Ok("-7".to_string()));
    assert_eq!(ToStr.visit_str("seven"), Ok("seven".to_string()));
    assert_eq!(ToStr.visit_f64(&format!("{}", 7.25_f64)), Ok("7.25".to_string()));
}

#[test]
fn expectations_name_the_type() {
    assert_eq!(
        ToNum::<i64>::new().expecting(),
        "a string representing legal i64 value or a value of i64 itself"
    );
    assert_eq!(
        ToNum::<i16>::new().expecting(),
        "a string representing legal i16 value or a value of i16 itself"
    );
    assert_eq!(
        ToNum::<i8>::new().expecting(),
        "a string representing legal i8 value or a value of i8 itself"
    );
    assert_eq!(
        ToNum::<i32>::new().expecting(),
        "a string representing legal i32 value or a value of i32 itself"
    );
    assert_eq!(ToStr.expecting(), "a string or a value of type that implements ToString");
}
