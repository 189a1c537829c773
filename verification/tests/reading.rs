use spin_trigger_remote::decode::val_from_json;
use spin_trigger_remote::document::read_json;
use spin_trigger_remote::json::Json;
use spin_trigger_remote::values::{Kind, Type, Val};

fn t(kind: Kind) -> Type {
    let shown = format!("{kind:?}");
    Type { kind, shown }
}

fn json(text: &str) -> Json {
    read_json(text.as_bytes()).unwrap()
}

fn read(ty: &Type, text: &str) -> Result<Val, String> {
    val_from_json(ty, json(text))
}

fn message(ty: &Type, text: &str) -> String {
    read(ty, text).unwrap_err()
}

fn named(name: &str, ty: Type) -> (String, Type) {
    (name.to_string(), ty)
}

fn finite(value: f64) -> serde_json::Number {
    serde_json::Number::from_f64(value).unwrap()
}

#[test]
fn bools_are_read() {
    assert_eq!(read(&t(Kind::Bool), "true"), Ok(Val::Bool(true)));
    assert_eq!(read(&t(Kind::Bool), "false"), Ok(Val::Bool(false)));
    assert_eq!(message(&t(Kind::Bool), "1"), "expected bool");
}

#[test]
fn integers_are_read_up_to_their_limits() {
    assert_eq!(read(&t(Kind::S8), "-128"), Ok(Val::S8(-128)));
    assert_eq!(read(&t(Kind::S8), "127"), Ok(Val::S8(127)));
    assert_eq!(read(&t(Kind::U8), "255"), Ok(Val::U8(255)));
    assert_eq!(read(&t(Kind::S16), "-32768"), Ok(Val::S16(-32768)));
    assert_eq!(read(&t(Kind::U16), "65535"), Ok(Val::U16(65535)));
    assert_eq!(read(&t(Kind::S32), "-2147483648"), Ok(Val::S32(i32::MIN)));
    assert_eq!(read(&t(Kind::U32), "4294967295"), Ok(Val::U32(u32::MAX)));
    assert_eq!(read(&t(Kind::S64), "-9223372036854775808"), Ok(Val::S64(i64::MIN)));
    assert_eq!(read(&t(Kind::S64), "9223372036854775807"), Ok(Val::S64(i64::MAX)));
    assert_eq!(read(&t(Kind::U64), "18446744073709551615"), Ok(Val::U64(u64::MAX)));
}

#[test]
fn integers_out_of_range_are_refused() {
    let expected = "out of range integral type conversion attempted";
    assert_eq!(message(&t(Kind::S8), "128"), expected);
    assert_eq!(message(&t(Kind::S8), "-129"), expected);
    assert_eq!(message(&t(Kind::U8), "256"), expected);
    assert_eq!(message(&t(Kind::U8), "-1"), expected);
    assert_eq!(message(&t(Kind::U64), "-1"), expected);
    assert_eq!(message(&t(Kind::S64), "9223372036854775808"), expected);
}

#[test]
fn integers_are_read_from_text() {
    assert_eq!(read(&t(Kind::U64), "\"18446744073709551615\""), Ok(Val::U64(u64::MAX)));
    assert_eq!(read(&t(Kind::S64), "\"-9223372036854775808\""), Ok(Val::S64(i64::MIN)));
    assert_eq!(read(&t(Kind::S8), "\"+7\""), Ok(Val::S8(7)));
    assert_eq!(read(&t(Kind::U8), "\"+255\""), Ok(Val::U8(255)));
    assert_eq!(read(&t(Kind::U8), "\"007\""), Ok(Val::U8(7)));
    assert_eq!(read(&t(Kind::S16), "\"-0\""), Ok(Val::S16(0)));
}

#[test]
fn text_that_is_no_integer_is_refused() {
    assert_eq!(message(&t(Kind::U8), "\"\""), "cannot parse integer from empty string");
    assert_eq!(message(&t(Kind::U8), "\"x\""), "invalid digit found in string");
    assert_eq!(message(&t(Kind::U8), "\"-1\""), "invalid digit found in string");
    assert_eq!(message(&t(Kind::S8), "\"-\""), "invalid digit found in string");
    assert_eq!(message(&t(Kind::S8), "\"+\""), "invalid digit found in string");
    assert_eq!(message(&t(Kind::U8), "\"256\""), "number too large to fit in target type");
    assert_eq!(message(&t(Kind::S8), "\"-129\""), "number too small to fit in target type");
    assert_eq!(message(&t(Kind::U8), "\" 1\""), "invalid digit found in string");
}

#[test]
fn other_json_is_no_integer() {
    assert_eq!(message(&t(Kind::U8), "1.5"), "couldn't parse int from Number(1.5)");
    assert_eq!(message(&t(Kind::U8), "null"), "couldn't parse int from Null");
    assert_eq!(message(&t(Kind::U8), "true"), "couldn't parse int from Bool(true)");
    assert_eq!(
        message(&t(Kind::U8), "[1, \"a\"]"),
        "couldn't parse int from Array [Number(1), String(\"a\")]"
    );
    assert_eq!(
        message(&t(Kind::U8), "{\"b\": 1, \"a\": 2}"),
        "couldn't parse int from Object {\"a\": Number(2), \"b\": Number(1)}"
    );
    assert_eq!(
        message(&t(Kind::U64), "18446744073709551616"),
        format!(
            "couldn't parse int from {:?}",
            serde_json::Value::from(18446744073709551616.0)
        )
    );
}

#[test]
fn floats_are_read() {
    assert_eq!(read(&t(Kind::Float64), "1.5"), Ok(Val::Float64(finite(1.5))));
    assert_eq!(read(&t(Kind::Float32), "-0.25"), Ok(Val::Float32(finite(-0.25))));
    assert_eq!(
        read(&t(Kind::Float64), "3"),
        Ok(Val::Float64(serde_json::Number::from(3)))
    );
    assert_eq!(message(&t(Kind::Float64), "\"1.5\""), "expected float");
    assert_eq!(message(&t(Kind::Float32), "null"), "expected float");
}

#[test]
fn chars_are_read() {
    assert_eq!(read(&t(Kind::Char), "\"x\""), Ok(Val::Char('x')));
    assert_eq!(read(&t(Kind::Char), "\"\u{1f980}\""), Ok(Val::Char('\u{1f980}')));
    assert_eq!(message(&t(Kind::Char), "\"\""), "expected single char");
    assert_eq!(message(&t(Kind::Char), "\"xy\""), "expected single char");
    assert_eq!(message(&t(Kind::Char), "1"), "expected string");
}

#[test]
fn text_is_read() {
    assert_eq!(read(&t(Kind::String), "\"a\\nb\""), Ok(Val::String("a\nb".to_string())));
    assert_eq!(message(&t(Kind::String), "null"), "expected string");
    assert_eq!(read(&t(Kind::Enum), "\"red\""), Ok(Val::Enum("red".to_string())));
    assert_eq!(message(&t(Kind::Enum), "{}"), "expected string");
}

#[test]
fn lists_are_read() {
    let list = t(Kind::List(Box::new(t(Kind::U8))));
    assert_eq!(read(&list, "[]"), Ok(Val::List(vec![])));
    assert_eq!(
        read(&list, "[1, \"2\", 3]"),
        Ok(Val::List(vec![Val::U8(1), Val::U8(2), Val::U8(3)]))
    );
    assert_eq!(message(&list, "{}"), "expected array");
    assert_eq!(
        message(&list, "[1, 256, \"x\"]"),
        "out of range integral type conversion attempted"
    );
}

#[test]
fn records_are_read() {
    let record = t(Kind::Record(vec![
        named("x", t(Kind::U8)),
        named("y", t(Kind::Option(Box::new(t(Kind::Bool))))),
    ]));
    assert_eq!(
        read(&record, "{\"y\": true, \"x\": 1}"),
        Ok(Val::Record(vec![
            ("x".to_string(), Val::U8(1)),
            ("y".to_string(), Val::Option(Some(Box::new(Val::Bool(true))))),
        ]))
    );
    assert_eq!(message(&record, "[]"), "expected object");
    assert_eq!(message(&record, "{\"y\": true}"), "missing record field 'x'");
    assert_eq!(message(&record, "{\"x\": true}"), "couldn't parse int from Bool(true)");
    assert_eq!(
        message(&record, "{\"x\": 1, \"z\": null, \"a\": 2}"),
        "unexpected record field(s): {\"a\": Number(2), \"z\": Null}"
    );
}

#[test]
fn a_field_of_an_option_type_may_be_left_out() {
    let record = t(Kind::Record(vec![
        named("x", t(Kind::U8)),
        named("y", t(Kind::Option(Box::new(t(Kind::Bool))))),
    ]));
    let left_out = read(&record, "{\"x\": 1}");
    assert_eq!(
        left_out,
        Ok(Val::Record(vec![
            ("x".to_string(), Val::U8(1)),
            ("y".to_string(), Val::Option(None)),
        ]))
    );
    assert_eq!(left_out, read(&record, "{\"x\": 1, \"y\": null}"));
}

#[test]
fn the_later_of_two_entries_counts() {
    let record = t(Kind::Record(vec![named("x", t(Kind::U8))]));
    assert_eq!(
        read(&record, "{\"x\": 1, \"x\": 2}"),
        Ok(Val::Record(vec![("x".to_string(), Val::U8(2))]))
    );
    let twice = Json::Object(vec![
        ("x".to_string(), json("1")),
        ("x".to_string(), json("2")),
    ]);
    assert_eq!(
        val_from_json(&record, twice),
        Ok(Val::Record(vec![("x".to_string(), Val::U8(2))]))
    );
}

#[test]
fn tuples_are_read() {
    let tuple = t(Kind::Tuple(vec![t(Kind::U8), t(Kind::String)]));
    assert_eq!(
        read(&tuple, "[1, \"a\"]"),
        Ok(Val::Tuple(vec![Val::U8(1), Val::String("a".to_string())]))
    );
    assert_eq!(message(&tuple, "[1]"), "expected array of 2 items; got 1");
    assert_eq!(
        message(&tuple, "[1, 2, 3, 4, 5, 6, 7, 8, 9, 10, 11]"),
        "expected array of 2 items; got 11"
    );
    assert_eq!(message(&tuple, "\"a\""), "expected array");
    assert_eq!(message(&tuple, "[1, 2]"), "expected string");
}

#[test]
fn variants_are_read() {
    let variant = t(Kind::Variant(vec![
        ("none".to_string(), None),
        ("some".to_string(), Some(t(Kind::U8))),
    ]));
    assert_eq!(
        read(&variant, "{\"some\": 1}"),
        Ok(Val::Variant("some".to_string(), Some(Box::new(Val::U8(1)))))
    );
    assert_eq!(
        read(&variant, "{\"none\": [1, 2]}"),
        Ok(Val::Variant("none".to_string(), None))
    );
    assert_eq!(message(&variant, "{\"other\": 1}"), "unknown variant case other");
    assert_eq!(message(&variant, "{}"), "expected object with exactly one field");
    assert_eq!(
        message(&variant, "{\"none\": null, \"some\": 1}"),
        "expected object with exactly one field"
    );
    assert_eq!(message(&variant, "\"none\""), "expected object");
    assert_eq!(message(&variant, "{\"some\": null}"), "couldn't parse int from Null");
}

#[test]
fn options_are_read() {
    let option = t(Kind::Option(Box::new(t(Kind::U8))));
    assert_eq!(read(&option, "null"), Ok(Val::Option(None)));
    assert_eq!(read(&option, "1"), Ok(Val::Option(Some(Box::new(Val::U8(1))))));
    assert_eq!(message(&option, "{}"), "couldn't parse int from Object {}");
}

#[test]
fn results_are_read() {
    let result = t(Kind::Result(Some(Box::new(t(Kind::U8))), Some(Box::new(t(Kind::String)))));
    assert_eq!(
        read(&result, "{\"ok\": 1}"),
        Ok(Val::Result(Ok(Some(Box::new(Val::U8(1))))))
    );
    assert_eq!(
        read(&result, "{\"error\": \"a\"}"),
        Ok(Val::Result(Ok(Some(Box::new(Val::String("a".to_string()))))))
    );
    assert_eq!(
        read(&t(Kind::Result(None, None)), "{\"ok\": null}"),
        Ok(Val::Result(Ok(None)))
    );
    assert_eq!(
        message(&result, "{\"o\\\"k\": 1}"),
        "expected ok or error; got \"o\\\"k\""
    );
    assert_eq!(
        message(&result, "{}"),
        "expected object with exactly one field (ok or error)"
    );
    assert_eq!(message(&result, "[]"), "expected object");
    assert_eq!(message(&result, "{\"error\": 1}"), "expected string");
}

#[test]
fn flags_are_read() {
    assert_eq!(
        read(&t(Kind::Flags), "[\"a\", \"b\"]"),
        Ok(Val::Flags(vec!["a".to_string(), "b".to_string()]))
    );
    assert_eq!(message(&t(Kind::Flags), "[\"a\", 1]"), "expected string");
    assert_eq!(message(&t(Kind::Flags), "\"a\""), "expected array");
}

#[test]
fn resources_are_not_read() {
    assert_eq!(message(&t(Kind::Own), "null"), "resource types not supported");
    assert_eq!(message(&t(Kind::Borrow), "1"), "resource types not supported");
}

#[test]
fn json_is_read_by_its_kinds() {
    assert_eq!(json("null"), Json::Null);
    assert_eq!(json(" true "), Json::Bool(true));
    assert_eq!(json("-12"), Json::Number(serde_json::Number::from(-12)));
    assert_eq!(
        json("{\"b\": [1], \"a\": \"x\"}"),
        Json::Object(vec![
            ("a".to_string(), Json::String("x".to_string())),
            (
                "b".to_string(),
                Json::Array(vec![Json::Number(serde_json::Number::from(1))])
            ),
        ])
    );
}

#[test]
fn text_that_is_not_json_is_refused() {
    assert_eq!(
        read_json(b"").unwrap_err(),
        "EOF while parsing a value at line 1 column 0"
    );
    assert_eq!(
        read_json(b"[1").unwrap_err(),
        "EOF while parsing a list at line 1 column 2"
    );
}
