use spin_trigger_remote::calls::{
    args_from_body, args_from_json, results_to_json, results_to_text,
};
use spin_trigger_remote::document::read_json;
use spin_trigger_remote::integers::{integer_from_json, parse_integer};
use spin_trigger_remote::json::Json;
use spin_trigger_remote::text::{
    concat2, concat3, concat4, same_text, single, split_first_slash, split_last_slash,
    trim_leading_slashes, write_decimal,
};
use spin_trigger_remote::values::{Content, Kind, Output, Type, Val};

fn t(kind: Kind) -> Type {
    let shown = format!("{kind:?}");
    Type { kind, shown }
}

fn out(content: Content) -> Output {
    let shown = format!("{content:?}");
    Output { content, shown }
}

fn args(params: &Vec<Type>, body: &str) -> Result<Vec<Val>, String> {
    args_from_body(params, body.as_bytes().to_vec())
}

#[test]
fn arguments_are_read_from_a_body() {
    let params = vec![t(Kind::U8), t(Kind::String)];
    assert_eq!(
        args(&params, "[1, \"a\"]"),
        Ok(vec![Val::U8(1), Val::String("a".to_string())])
    );
    assert_eq!(args(&vec![], "[]"), Ok(vec![]));
}

#[test]
fn an_empty_body_gives_no_arguments() {
    assert_eq!(args(&vec![], ""), Ok(vec![]));
    assert_eq!(args(&vec![], ""), args(&vec![], "[]"));
    assert_eq!(
        args(&vec![t(Kind::U8)], ""),
        Err("expected 1 args; got 0".to_string())
    );
}

#[test]
fn bodies_without_arguments_are_refused() {
    let params = vec![t(Kind::U8)];
    assert_eq!(
        args(&params, "1"),
        Err("request body must be a JSON array".to_string())
    );
    assert_eq!(
        args(&params, "[1, 2]"),
        Err("expected 1 args; got 2".to_string())
    );
    assert_eq!(
        args(&params, "nope"),
        Err("expected ident at line 1 column 2".to_string())
    );
}

#[test]
fn the_first_argument_with_an_error_is_named() {
    let params = vec![t(Kind::U8), t(Kind::U8), t(Kind::Bool)];
    assert_eq!(
        args(&params, "[1, true, 2]"),
        Err("error parsing argument 2".to_string())
    );
    let value = read_json(b"[256, 1, true]").unwrap();
    assert_eq!(
        args_from_json(&params, value),
        Err("error parsing argument 1".to_string())
    );
}

#[test]
fn results_are_laid_out() {
    assert_eq!(
        results_to_text(&vec![t(Kind::String)], vec![out(Content::String("hi \"you\"".to_string()))]),
        Ok("[\n  \"hi \\\"you\\\"\"\n]".to_string())
    );
    assert_eq!(results_to_text(&vec![], vec![]), Ok("[]".to_string()));
    assert_eq!(
        results_to_text(&vec![t(Kind::Own)], vec![out(Content::Resource)]),
        Err("resource types not supported".to_string())
    );
}

#[test]
fn results_and_types_are_paired() {
    assert_eq!(
        results_to_json(&vec![t(Kind::Bool)], vec![out(Content::Bool(true)), out(Content::Bool(false))]),
        Ok(vec![Json::Bool(true)])
    );
    assert_eq!(
        results_to_json(&vec![t(Kind::Bool), t(Kind::U8)], vec![out(Content::Bool(true))]),
        Ok(vec![Json::Bool(true)])
    );
    assert_eq!(
        results_to_json(&vec![t(Kind::Bool), t(Kind::U8)], vec![out(Content::Bool(true)), out(Content::Bool(true))]),
        Err("val Bool(true) doesn't match type U8".to_string())
    );
}

#[test]
fn numerals_are_parsed_as_std_parses_them() {
    let texts = [
        "", "+", "-", "0", "-0", "+0", "00", "7", "-7", "+7", "--7", "+-7", "127", "128", "-128",
        "-129", "255", "256", "1x", "x1", "12 ", " 12", "1_000", "\u{0663}", "99999999999999999999",
        "9223372036854775807", "9223372036854775808", "-9223372036854775808",
        "-9223372036854775809", "18446744073709551615", "18446744073709551616",
    ];
    for text in texts {
        assert_eq!(
            parse_integer(text, i8::MIN as i128, i8::MAX as i128),
            text.parse::<i8>().map(|i| i as i128).map_err(|e| e.to_string()),
        );
        assert_eq!(
            parse_integer(text, u8::MIN as i128, u8::MAX as i128),
            text.parse::<u8>().map(|i| i as i128).map_err(|e| e.to_string()),
        );
        assert_eq!(
            parse_integer(text, i64::MIN as i128, i64::MAX as i128),
            text.parse::<i64>().map(|i| i as i128).map_err(|e| e.to_string()),
        );
        assert_eq!(
            parse_integer(text, u64::MIN as i128, u64::MAX as i128),
            text.parse::<u64>().map(|i| i as i128).map_err(|e| e.to_string()),
        );
    }
}

#[test]
fn a_numeral_reads_as_its_integer() {
    for i in [-128i128, -1, 0, 9, 10, 127] {
        let text = Json::String(i.to_string());
        let number = Json::Number(serde_json::Number::from(i as i64));
        assert_eq!(integer_from_json(text, -128, 127), Ok(i));
        assert_eq!(integer_from_json(number, -128, 127), Ok(i));
    }
}

#[test]
fn integers_out_of_range_have_the_message_of_std() {
    let error = i8::try_from(200i64).unwrap_err().to_string();
    let number = Json::Number(serde_json::Number::from(200));
    assert_eq!(integer_from_json(number, -128, 127), Err(error));
}

#[test]
fn decimals_are_written_without_leading_zeros() {
    for n in [0usize, 7, 10, 99, 100, 12345, usize::MAX] {
        assert_eq!(write_decimal(n), n.to_string());
    }
}

#[test]
fn texts_are_put_together() {
    assert_eq!(concat2("a", "b"), "ab");
    assert_eq!(concat3("a", "", "c"), "ac");
    assert_eq!(concat4("a", "b", "c", "d"), "abcd");
    assert_eq!(single('\u{e9}'), "\u{e9}");
    assert!(same_text(&"a".to_string(), "a"));
    assert!(!same_text(&"a".to_string(), "b"));
}

#[test]
fn paths_are_cut_at_slashes() {
    for path in ["", "/", "//", "a", "/a", "//a/b", "a/b/c", "\u{e9}/\u{e8}/", "a/"] {
        assert_eq!(trim_leading_slashes(path), path.trim_start_matches('/'));
        assert_eq!(split_first_slash(path), path.split_once('/'));
        assert_eq!(split_last_slash(path), path.rsplit_once('/'));
    }
}
