use spin_trigger_remote::decode::val_from_json;
use spin_trigger_remote::document::{describe_entries, describe_json, read_json, write_pretty};
use spin_trigger_remote::encode::{optional_val_to_json, val_to_json};
use spin_trigger_remote::json::Json;
use spin_trigger_remote::values::{Content, Float, Kind, Output, Type, Val};

fn t(kind: Kind) -> Type {
    let shown = format!("{kind:?}");
    Type { kind, shown }
}

fn out(content: Content) -> Output {
    let shown = format!("{content:?}");
    Output { content, shown }
}

fn number(value: i64) -> Json {
    Json::Number(serde_json::Number::from(value))
}

fn text(value: &str) -> Json {
    Json::String(value.to_string())
}

fn finite(value: f64) -> Float {
    Float::Finite(serde_json::Number::from_f64(value).unwrap())
}

fn message(ty: &Type, val: Output) -> String {
    val_to_json(ty, val).unwrap_err()
}

#[test]
fn plain_values_are_written() {
    assert_eq!(val_to_json(&t(Kind::Bool), out(Content::Bool(true))), Ok(Json::Bool(true)));
    assert_eq!(val_to_json(&t(Kind::S8), out(Content::S8(-1))), Ok(number(-1)));
    assert_eq!(val_to_json(&t(Kind::U8), out(Content::U8(255))), Ok(number(255)));
    assert_eq!(val_to_json(&t(Kind::S16), out(Content::S16(-300))), Ok(number(-300)));
    assert_eq!(val_to_json(&t(Kind::U16), out(Content::U16(65535))), Ok(number(65535)));
    assert_eq!(val_to_json(&t(Kind::S32), out(Content::S32(-70000))), Ok(number(-70000)));
    assert_eq!(val_to_json(&t(Kind::U32), out(Content::U32(70000))), Ok(number(70000)));
    assert_eq!(val_to_json(&t(Kind::S64), out(Content::S64(i64::MIN))), Ok(number(i64::MIN)));
    assert_eq!(
        val_to_json(&t(Kind::U64), out(Content::U64(u64::MAX))),
        Ok(Json::Number(serde_json::Number::from(u64::MAX)))
    );
    assert_eq!(val_to_json(&t(Kind::Char), out(Content::Char('\u{e9}'))), Ok(text("\u{e9}")));
    assert_eq!(
        val_to_json(&t(Kind::String), out(Content::String("a".to_string()))),
        Ok(text("a"))
    );
    assert_eq!(
        val_to_json(&t(Kind::Enum), out(Content::Enum("red".to_string()))),
        Ok(text("red"))
    );
}

#[test]
fn floats_are_written_as_numbers_or_null() {
    assert_eq!(
        val_to_json(&t(Kind::Float64), out(Content::Float64(finite(1.5)))),
        Ok(Json::Number(serde_json::Number::from_f64(1.5).unwrap()))
    );
    assert_eq!(
        val_to_json(&t(Kind::Float32), out(Content::Float32(finite(0.25)))),
        Ok(Json::Number(serde_json::Number::from_f64(0.25).unwrap()))
    );
    assert_eq!(
        val_to_json(&t(Kind::Float64), out(Content::Float64(Float::NonFinite))),
        Ok(Json::Null)
    );
}

#[test]
fn lists_and_tuples_are_written() {
    assert_eq!(
        val_to_json(
            &t(Kind::List(Box::new(t(Kind::U8)))),
            out(Content::List(vec![out(Content::U8(1)), out(Content::U8(2))]))
        ),
        Ok(Json::Array(vec![number(1), number(2)]))
    );
    let tuple = t(Kind::Tuple(vec![t(Kind::U8), t(Kind::Bool)]));
    assert_eq!(
        val_to_json(&tuple, out(Content::Tuple(vec![out(Content::U8(1)), out(Content::Bool(false))]))),
        Ok(Json::Array(vec![number(1), Json::Bool(false)]))
    );
    assert_eq!(
        message(&tuple, out(Content::Tuple(vec![out(Content::U8(1))]))),
        "expected 2 items; got 1"
    );
    assert_eq!(
        message(&t(Kind::List(Box::new(t(Kind::U8)))), out(Content::List(vec![out(Content::U8(1)), out(Content::S8(2))]))),
        "val S8(2) doesn't match type U8"
    );
}

#[test]
fn records_are_written() {
    let record = t(Kind::Record(vec![
        ("x".to_string(), t(Kind::U8)),
        ("y".to_string(), t(Kind::Bool)),
    ]));
    assert_eq!(
        val_to_json(
            &record,
            out(Content::Record(vec![
                ("y".to_string(), out(Content::Bool(true))),
                ("x".to_string(), out(Content::U8(1))),
            ]))
        ),
        Ok(Json::Object(vec![
            ("y".to_string(), Json::Bool(true)),
            ("x".to_string(), number(1)),
        ]))
    );
    assert_eq!(
        message(&record, out(Content::Record(vec![("z\t".to_string(), out(Content::U8(1)))]))),
        "invalid key \"z\\t\""
    );
    assert_eq!(
        message(
            &record,
            out(Content::Record(vec![
                ("x".to_string(), out(Content::U8(1))),
                ("x".to_string(), out(Content::U8(2))),
            ]))
        ),
        "invalid key \"x\""
    );
}

#[test]
fn variants_are_written() {
    let variant = t(Kind::Variant(vec![
        ("none".to_string(), None),
        ("some".to_string(), Some(t(Kind::U8))),
    ]));
    assert_eq!(
        val_to_json(
            &variant,
            out(Content::Variant("some".to_string(), Some(Box::new(out(Content::U8(1))))))
        ),
        Ok(Json::Object(vec![("some".to_string(), number(1))]))
    );
    assert_eq!(
        val_to_json(&variant, out(Content::Variant("none".to_string(), None))),
        Ok(Json::Object(vec![("none".to_string(), Json::Null)]))
    );
    assert_eq!(
        message(&variant, out(Content::Variant("other".to_string(), None))),
        "unknown variant case \"other\""
    );
    assert_eq!(
        message(&variant, out(Content::Variant("some".to_string(), None))),
        "type val mismatch Some(U8): None"
    );
    assert_eq!(
        message(
            &variant,
            out(Content::Variant("none".to_string(), Some(Box::new(out(Content::Bool(true))))))
        ),
        "type val mismatch None: Some(Bool(true))"
    );
}

#[test]
fn options_are_written() {
    let option = t(Kind::Option(Box::new(t(Kind::U8))));
    assert_eq!(val_to_json(&option, out(Content::Option(None))), Ok(Json::Null));
    assert_eq!(
        val_to_json(&option, out(Content::Option(Some(Box::new(out(Content::U8(3))))))),
        Ok(number(3))
    );
}

#[test]
fn results_are_written() {
    let result = t(Kind::Result(Some(Box::new(t(Kind::U8))), None));
    assert_eq!(
        val_to_json(&result, out(Content::Result(Ok(Some(Box::new(out(Content::U8(3)))))))),
        Ok(Json::Object(vec![("ok".to_string(), number(3))]))
    );
    assert_eq!(
        val_to_json(&result, out(Content::Result(Err(None)))),
        Ok(Json::Object(vec![("error".to_string(), Json::Null)]))
    );
    assert_eq!(
        message(&result, out(Content::Result(Ok(None)))),
        "type val mismatch Some(U8): None"
    );
}

#[test]
fn flags_are_written() {
    assert_eq!(
        val_to_json(
            &t(Kind::Flags),
            out(Content::Flags(vec!["a".to_string(), "b".to_string()]))
        ),
        Ok(Json::Array(vec![text("a"), text("b")]))
    );
}

#[test]
fn resources_are_not_written() {
    assert_eq!(
        message(&t(Kind::Own), out(Content::Resource)),
        "resource types not supported"
    );
    assert_eq!(
        message(&t(Kind::Borrow), out(Content::Bool(true))),
        "resource types not supported"
    );
    assert_eq!(
        message(&t(Kind::Bool), out(Content::Resource)),
        "val Resource doesn't match type Bool"
    );
}

#[test]
fn payloads_are_written() {
    assert_eq!(optional_val_to_json(None, None), Ok(Json::Null));
    assert_eq!(
        optional_val_to_json(Some(&t(Kind::U8)), Some(Box::new(out(Content::U8(1))))),
        Ok(number(1))
    );
    assert_eq!(
        optional_val_to_json(Some(&t(Kind::Flags)), None),
        Err("type val mismatch Some(Flags): None".to_string())
    );
}

#[test]
fn written_values_read_back() {
    let ty = t(Kind::Record(vec![
        ("a".to_string(), t(Kind::List(Box::new(t(Kind::Char))))),
        (
            "b".to_string(),
            t(Kind::Tuple(vec![
                t(Kind::U64),
                t(Kind::Option(Box::new(t(Kind::Float64)))),
                t(Kind::Flags),
            ])),
        ),
        (
            "c".to_string(),
            t(Kind::Variant(vec![("v".to_string(), Some(t(Kind::S8)))])),
        ),
    ]));
    let output = out(Content::Record(vec![
        (
            "a".to_string(),
            out(Content::List(vec![
                out(Content::Char('x')),
                out(Content::Char('"')),
            ])),
        ),
        (
            "b".to_string(),
            out(Content::Tuple(vec![
                out(Content::U64(u64::MAX)),
                out(Content::Option(Some(Box::new(out(Content::Float64(
                    finite(0.5),
                )))))),
                out(Content::Flags(vec!["f".to_string()])),
            ])),
        ),
        (
            "c".to_string(),
            out(Content::Variant(
                "v".to_string(),
                Some(Box::new(out(Content::S8(-8)))),
            )),
        ),
    ]));
    let json = val_to_json(&ty, output).unwrap();
    assert_eq!(
        val_from_json(&ty, json),
        Ok(Val::Record(vec![
            (
                "a".to_string(),
                Val::List(vec![Val::Char('x'), Val::Char('"')]),
            ),
            (
                "b".to_string(),
                Val::Tuple(vec![
                    Val::U64(u64::MAX),
                    Val::Option(Some(Box::new(Val::Float64(
                        serde_json::Number::from_f64(0.5).unwrap()
                    )))),
                    Val::Flags(vec!["f".to_string()]),
                ]),
            ),
            (
                "c".to_string(),
                Val::Variant("v".to_string(), Some(Box::new(Val::S8(-8)))),
            ),
        ]))
    );
}

#[test]
fn read_values_write_back() {
    let ty = t(Kind::Record(vec![
        ("n".to_string(), t(Kind::Option(Box::new(t(Kind::U8))))),
        ("l".to_string(), t(Kind::List(Box::new(t(Kind::Bool))))),
    ]));
    let text = b"{\"n\": null, \"l\": [true]}";
    assert_eq!(
        val_from_json(&ty, read_json(text).unwrap()),
        Ok(Val::Record(vec![
            ("n".to_string(), Val::Option(None)),
            ("l".to_string(), Val::List(vec![Val::Bool(true)])),
        ]))
    );
    let returned = out(Content::Record(vec![
        ("n".to_string(), out(Content::Option(None))),
        (
            "l".to_string(),
            out(Content::List(vec![out(Content::Bool(true))])),
        ),
    ]));
    let written = val_to_json(&ty, returned).unwrap();
    assert_eq!(
        write_pretty(vec![written]),
        write_pretty(vec![read_json(text).unwrap()])
    );
}

#[test]
fn messages_show_types_and_values_as_the_host_does() {
    let ty = Type {
        kind: Kind::U8,
        shown: "<the type>".to_string(),
    };
    let output = Output {
        content: Content::Bool(true),
        shown: "<the value>".to_string(),
    };
    assert_eq!(
        val_to_json(&ty, output),
        Err("val <the value> doesn't match type <the type>".to_string())
    );
    assert_eq!(
        optional_val_to_json(Some(&ty), None),
        Err("type val mismatch Some(<the type>): None".to_string())
    );
}

#[test]
fn some_written_values_do_not_read_back() {
    let nested = t(Kind::Option(Box::new(t(Kind::Option(Box::new(t(
        Kind::U8,
    )))))));
    let absent = out(Content::Option(None));
    let json = val_to_json(&nested, out(Content::Option(Some(Box::new(absent))))).unwrap();
    assert_eq!(val_from_json(&nested, json), Ok(Val::Option(None)));

    let result = t(Kind::Result(None, None));
    let json = val_to_json(&result, out(Content::Result(Err(None)))).unwrap();
    assert_eq!(val_from_json(&result, json), Ok(Val::Result(Ok(None))));

    let float = t(Kind::Float64);
    let json = val_to_json(&float, out(Content::Float64(Float::NonFinite))).unwrap();
    assert_eq!(
        val_from_json(&float, json),
        Err("expected float".to_string())
    );
}

#[test]
fn json_is_laid_out_for_a_reader() {
    assert_eq!(write_pretty(vec![]), "[]");
    assert_eq!(
        write_pretty(vec![
            number(1),
            Json::Object(vec![
                ("b".to_string(), Json::Null),
                ("a".to_string(), Json::Array(vec![text("x")])),
            ]),
        ]),
        "[\n  1,\n  {\n    \"a\": [\n      \"x\"\n    ],\n    \"b\": null\n  }\n]"
    );
}

#[test]
fn json_is_shown_in_messages() {
    assert_eq!(describe_json(Json::Bool(false)), "Bool(false)");
    assert_eq!(
        describe_entries(vec![
            ("b".to_string(), Json::Null),
            ("a".to_string(), number(1)),
            ("b".to_string(), text("x")),
        ]),
        "{\"a\": Number(1), \"b\": String(\"x\")}"
    );
}
