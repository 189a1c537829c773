//! The arguments and the results of a call, as a request gives them and is answered.
use crate::decode::val_from_json;
use crate::document::{read_json, write_pretty};
use crate::encode::val_to_json;
use crate::json::{Json, JsonView};
use crate::text::{concat2, concat4, write_decimal};
use crate::values::{Output, OutputView, Type, TypeView, Val, ValView};
use vstd::prelude::*;
use vstd::string::StringExecFns;

verus! {

/// The bytes of a body in which there is no argument: an empty JSON array.
pub open spec fn no_arguments() -> Seq<u8> {
    seq![0x5bu8, 0x5du8]
}

/// The arguments, one of each type, that as many JSON values stand for, or the message that names
/// the first that has an error.
pub open spec fn decode_args(params: Seq<TypeView>, values: Seq<JsonView>) -> Result<
    Seq<ValView>,
    Seq<char>,
>
    decreases params.len(),
{
    if params.len() == 0 || values.len() == 0 {
        Ok(Seq::empty())
    } else {
        match decode_args(params.drop_last(), values.drop_last()) {
            Ok(args) => match crate::decode::decode(params.last(), values.last()) {
                Ok(arg) => Ok(args.push(arg)),
                Err(_) => Err("error parsing argument "@ + crate::text::decimal(values.len())),
            },
            Err(message) => Err(message),
        }
    }
}

/// The arguments for parameters that a JSON value stands for.
pub open spec fn json_args(params: Seq<TypeView>, value: JsonView) -> Result<
    Seq<ValView>,
    Seq<char>,
> {
    match value {
        JsonView::Array(values) => if values.len() == params.len() {
            decode_args(params, values)
        } else {
            Err(
                "expected "@ + crate::text::decimal(params.len()) + " args; got "@
                    + crate::text::decimal(values.len()),
            )
        },
        _ => Err("request body must be a JSON array"@),
    }
}

/// The arguments for parameters that the body of a request gives. An empty body gives none.
pub open spec fn body_args(params: Seq<TypeView>, body: Seq<u8>) -> Result<
    Seq<ValView>,
    Seq<char>,
> {
    match crate::document::read_text(
        if body.len() == 0 {
            no_arguments()
        } else {
            body
        },
    ) {
        Ok(value) => json_args(params, value),
        Err(message) => Err(message),
    }
}

/// Results in JSON, each by its type. Results without a type, and types without a result, do not
/// count.
pub open spec fn json_results(types: Seq<TypeView>, results: Seq<OutputView>) -> Result<
    Seq<JsonView>,
    Seq<char>,
> {
    let n = if types.len() <= results.len() {
        types.len() as int
    } else {
        results.len() as int
    };
    crate::encode::encode_zip(types.take(n), results.take(n))
}

/// The text that answers a call.
pub open spec fn results_text(types: Seq<TypeView>, results: Seq<OutputView>) -> Result<
    Seq<char>,
    Seq<char>,
> {
    match json_results(types, results) {
        Ok(values) => Ok(crate::document::pretty_text(values)),
        Err(message) => Err(message),
    }
}

pub proof fn lemma_args_stop(params: Seq<TypeView>, values: Seq<JsonView>, n: int)
    requires
        0 <= n <= values.len(),
        params.len() == values.len(),
        decode_args(params.take(n), values.take(n)) is Err,
    ensures
        decode_args(params, values) == decode_args(params.take(n), values.take(n)),
    decreases values.len() - n,
{
    if n < values.len() {
        assert(values.take(n + 1).drop_last() =~= values.take(n));
        assert(params.take(n + 1).drop_last() =~= params.take(n));
        lemma_args_stop(params, values, n + 1);
    } else {
        assert(values.take(n) =~= values);
        assert(params.take(n) =~= params);
    }
}

/// Reads the arguments for parameters from a JSON value.
pub fn args_from_json(params: &Vec<Type>, value: Json) -> (result: Result<Vec<Val>, String>)
    ensures
        crate::decode::vals_outcome(result) == json_args(
            crate::values::types_view(params@),
            value@,
        ),
{
    match value {
        Json::Array(values) => {
            if values.len() != params.len() {
                let expected = write_decimal(params.len());
                let got = write_decimal(values.len());
                return Err(concat4("expected ", expected.as_str(), " args; got ", got.as_str()));
            }
            let ghost given = values@;
            let ghost all = crate::json::items_view(given);
            let ghost tys = crate::values::types_view(params@);
            let mut args: Vec<Val> = Vec::new();
            let mut i: usize = 0;
            proof {
                assert(all.take(0) =~= Seq::empty());
                assert(tys.take(0) =~= Seq::empty());
                assert(crate::values::vals_view(args@) =~= Seq::empty());
            }
            for item in iter: values
                invariant
                    iter.seq() == given,
                    i == iter.index(),
                    params@.len() == given.len(),
                    value@ == JsonView::Array(all),
                    all == crate::json::items_view(given),
                    tys == crate::values::types_view(params@),
                    crate::decode::vals_outcome(Ok(args)) == decode_args(
                        tys.take(i as int),
                        all.take(i as int),
                    ),
            {
                proof {
                    assert(i < params.len());
                    assert(all.take(i + 1).drop_last() =~= all.take(i as int));
                    assert(tys.take(i + 1).drop_last() =~= tys.take(i as int));
                }
                let ghost before = args@;
                match val_from_json(&params[i], item) {
                    Ok(arg) => {
                        args.push(arg);
                        proof {
                            crate::values::lemma_vals_push(before, arg);
                        }
                    },
                    Err(_) => {
                        proof {
                            lemma_args_stop(tys, all, i + 1);
                        }
                        let position = write_decimal(i + 1);
                        return Err(concat2("error parsing argument ", position.as_str()));
                    },
                }
                i = i + 1;
            }
            assert(all.take(all.len() as int) =~= all);
            assert(tys.take(tys.len() as int) =~= tys);
            Ok(args)
        },
        _ => Err(String::from_str("request body must be a JSON array")),
    }
}

/// Reads the arguments for parameters from the body of a request.
pub fn args_from_body(params: &Vec<Type>, body: Vec<u8>) -> (result: Result<Vec<Val>, String>)
    ensures
        crate::decode::vals_outcome(result) == body_args(
            crate::values::types_view(params@),
            body@,
        ),
{
    let mut text: Vec<u8> = body;
    if text.len() == 0 {
        text.push(0x5b);
        text.push(0x5d);
        assert(text@ =~= no_arguments());
    }
    match read_json(text.as_slice()) {
        Ok(value) => args_from_json(params, value),
        Err(message) => Err(message),
    }
}

/// Writes the results of a call in JSON.
pub fn results_to_json(types: &Vec<Type>, results: Vec<Output>) -> (result: Result<
    Vec<Json>,
    String,
>)
    ensures
        crate::encode::values_outcome(result) == json_results(
            crate::values::types_view(types@),
            crate::values::outputs_view(results@),
        ),
{
    let ghost given = results@;
    let ghost all = crate::values::outputs_view(given);
    let ghost tys = crate::values::types_view(types@);
    let n = if types.len() <= results.len() {
        types.len()
    } else {
        results.len()
    };
    let mut values: Vec<Json> = Vec::new();
    let mut i: usize = 0;
    proof {
        assert(all.take(0) =~= Seq::empty());
        assert(tys.take(0) =~= Seq::empty());
        assert(crate::json::items_view(values@) =~= Seq::empty());
    }
    for val in iter: results
        invariant
            iter.seq() == given,
            given == results@,
            n <= given.len(),
            n <= types@.len(),
            n == types@.len() || n == given.len(),
            i == (if iter.index() <= n {
                iter.index()
            } else {
                n as int
            }),
            all == crate::values::outputs_view(given),
            tys == crate::values::types_view(types@),
            crate::encode::values_outcome(Ok(values)) == crate::encode::encode_zip(
                tys.take(i as int),
                all.take(i as int),
            ),
    {
        if i < n {
            proof {
                assert(all.take(i + 1).drop_last() =~= all.take(i as int));
                assert(tys.take(i + 1).drop_last() =~= tys.take(i as int));
            }
            let ghost before = values@;
            match val_to_json(&types[i], val) {
                Ok(value) => {
                    values.push(value);
                    proof {
                        crate::json::lemma_items_push(before, value);
                    }
                },
                Err(message) => {
                    proof {
                        assert(all.take(n as int).take(i + 1) =~= all.take(i + 1));
                        assert(tys.take(n as int).take(i + 1) =~= tys.take(i + 1));
                        crate::encode::lemma_zip_stops(
                            tys.take(n as int),
                            all.take(n as int),
                            i + 1,
                        );
                    }
                    return Err(message);
                },
            }
            i = i + 1;
        }
    }
    Ok(values)
}

/// A text, or why there is none.
pub open spec fn text_outcome(result: Result<String, String>) -> Result<Seq<char>, Seq<char>> {
    match result {
        Ok(text) => Ok(text@),
        Err(message) => Err(message@),
    }
}

/// Writes the text that answers a call.
pub fn results_to_text(types: &Vec<Type>, results: Vec<Output>) -> (result: Result<String, String>)
    ensures
        text_outcome(result) == results_text(
            crate::values::types_view(types@),
            crate::values::outputs_view(results@),
        ),
{
    match results_to_json(types, results) {
        Ok(values) => Ok(write_pretty(values)),
        Err(message) => Err(message),
    }
}

} // verus!
