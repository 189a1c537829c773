//! From values to JSON: what a request is answered.
use crate::decode::find_case;
use crate::json::{Json, JsonView, NumberView};
use crate::text::{concat2, concat3, concat4, single, write_decimal};
use crate::values::{
    Content, ContentView, Float, FloatView, Kind, KindView, Output, OutputView, Type, TypeView,
};
use vstd::prelude::*;
use vstd::string::StringExecFns;

verus! {

/// A floating-point value in JSON, which has no number for those that are not finite.
pub open spec fn encode_float(float: FloatView) -> JsonView {
    match float {
        FloatView::Finite(number) => JsonView::Number(number),
        FloatView::NonFinite => JsonView::Null,
    }
}

/// Names in JSON.
pub open spec fn encode_names(names: Seq<Seq<char>>) -> JsonView {
    JsonView::Array(Seq::new(names.len(), |i: int| JsonView::String(names[i])))
}

/// The types of fields by their names; of two fields with one name, the later one counts.
pub open spec fn field_types(fields: Seq<(Seq<char>, TypeView)>) -> Map<Seq<char>, TypeView>
    decreases fields.len(),
{
    if fields.len() == 0 {
        Map::empty()
    } else {
        field_types(fields.drop_last()).insert(fields.last().0, fields.last().1)
    }
}

/// An optional type without its box.
pub open spec fn unboxed(ty: Option<Box<TypeView>>) -> Option<TypeView> {
    match ty {
        Some(ty) => Some(*ty),
        None => None,
    }
}

/// The JSON value that stands for a value of a type, or the message of the error. Of a value and a
/// type that do not match, the message shows both as the host does.
pub open spec fn encode(ty: TypeView, val: OutputView) -> Result<JsonView, Seq<char>>
    decreases val, 0nat,
{
    match (ty.kind, val.content) {
        (KindView::Bool, ContentView::Bool(b)) => Ok(JsonView::Bool(b)),
        (KindView::S8, ContentView::S8(n)) => Ok(JsonView::Number(NumberView::Integer(n as int))),
        (KindView::U8, ContentView::U8(n)) => Ok(JsonView::Number(NumberView::Integer(n as int))),
        (KindView::S16, ContentView::S16(n)) => Ok(JsonView::Number(NumberView::Integer(n as int))),
        (KindView::U16, ContentView::U16(n)) => Ok(JsonView::Number(NumberView::Integer(n as int))),
        (KindView::S32, ContentView::S32(n)) => Ok(JsonView::Number(NumberView::Integer(n as int))),
        (KindView::U32, ContentView::U32(n)) => Ok(JsonView::Number(NumberView::Integer(n as int))),
        (KindView::S64, ContentView::S64(n)) => Ok(JsonView::Number(NumberView::Integer(n as int))),
        (KindView::U64, ContentView::U64(n)) => Ok(JsonView::Number(NumberView::Integer(n as int))),
        (KindView::Float32, ContentView::Float32(float)) => Ok(encode_float(float)),
        (KindView::Float64, ContentView::Float64(float)) => Ok(encode_float(float)),
        (KindView::Char, ContentView::Char(c)) => Ok(JsonView::String(seq![c])),
        (KindView::String, ContentView::String(text)) => Ok(JsonView::String(text)),
        (KindView::List(item), ContentView::List(vals)) => match encode_each(*item, vals) {
            Ok(values) => Ok(JsonView::Array(values)),
            Err(message) => Err(message),
        },
        (KindView::Record(fields), ContentView::Record(vals)) => match encode_fields(
            field_types(fields),
            vals,
        ) {
            Ok((map, _)) => Ok(JsonView::Object(map)),
            Err(message) => Err(message),
        },
        (KindView::Tuple(types), ContentView::Tuple(vals)) => if types.len() == vals.len() {
            match encode_zip(types, vals) {
                Ok(values) => Ok(JsonView::Array(values)),
                Err(message) => Err(message),
            }
        } else {
            Err(
                "expected "@ + crate::text::decimal(types.len()) + " items; got "@
                    + crate::text::decimal(vals.len()),
            )
        },
        (KindView::Variant(cases), ContentView::Variant(name, payload)) => match crate::decode::case_index(
            cases,
            name,
        ) {
            Some(i) => match encode_optional(cases[i].1, payload) {
                Ok(value) => Ok(JsonView::Object(map![name => value])),
                Err(message) => Err(message),
            },
            None => Err("unknown variant case "@ + crate::document::text_debug(name)),
        },
        (KindView::Enum, ContentView::Enum(name)) => Ok(JsonView::String(name)),
        (KindView::Option(payload_ty), ContentView::Option(payload)) => match payload {
            Some(val) => encode(*payload_ty, *val),
            None => Ok(JsonView::Null),
        },
        (KindView::Result(ok, err), ContentView::Result(Ok(payload))) => match encode_optional(
            unboxed(ok),
            payload,
        ) {
            Ok(value) => Ok(JsonView::Object(map!["ok"@ => value])),
            Err(message) => Err(message),
        },
        (KindView::Result(ok, err), ContentView::Result(Err(payload))) => match encode_optional(
            unboxed(err),
            payload,
        ) {
            Ok(value) => Ok(JsonView::Object(map!["error"@ => value])),
            Err(message) => Err(message),
        },
        (KindView::Flags, ContentView::Flags(names)) => Ok(encode_names(names)),
        (KindView::Own, _) => Err("resource types not supported"@),
        (KindView::Borrow, _) => Err("resource types not supported"@),
        _ => Err("val "@ + val.shown + " doesn't match type "@ + ty.shown),
    }
}

/// An optional text in a message.
pub open spec fn show_optional(shown: Option<Seq<char>>) -> Seq<char> {
    match shown {
        Some(shown) => "Some("@ + shown + ")"@,
        None => "None"@,
    }
}

/// An optional type in a message.
pub open spec fn type_shown(ty: Option<TypeView>) -> Seq<char> {
    match ty {
        Some(ty) => show_optional(Some(ty.shown)),
        None => show_optional(None),
    }
}

/// An optional value in a message.
pub open spec fn val_shown(val: Option<Box<OutputView>>) -> Seq<char> {
    match val {
        Some(val) => show_optional(Some(val.shown)),
        None => show_optional(None),
    }
}

/// The JSON value that stands for a payload: null where neither the type nor the value has one.
pub open spec fn encode_optional(ty: Option<TypeView>, val: Option<Box<OutputView>>) -> Result<
    JsonView,
    Seq<char>,
>
    decreases val, 0nat,
{
    match (ty, val) {
        (None, None) => Ok(JsonView::Null),
        (Some(ty), Some(val)) => encode(ty, *val),
        (ty, val) => Err("type val mismatch "@ + type_shown(ty) + ": "@ + val_shown(val)),
    }
}

/// The JSON values that stand for values of one type, or the message of the first error.
pub open spec fn encode_each(item: TypeView, vals: Seq<OutputView>) -> Result<
    Seq<JsonView>,
    Seq<char>,
>
    decreases vals, 0nat,
{
    if vals.len() == 0 {
        Ok(Seq::empty())
    } else {
        match encode_each(item, vals.drop_last()) {
            Ok(values) => match encode(item, vals.last()) {
                Ok(value) => Ok(values.push(value)),
                Err(message) => Err(message),
            },
            Err(message) => Err(message),
        }
    }
}

/// The JSON values that stand for values, one of each type, or the message of the first error.
pub open spec fn encode_zip(types: Seq<TypeView>, vals: Seq<OutputView>) -> Result<
    Seq<JsonView>,
    Seq<char>,
>
    decreases vals, 0nat,
{
    if types.len() == 0 || vals.len() == 0 {
        Ok(Seq::empty())
    } else {
        match encode_zip(types.drop_last(), vals.drop_last()) {
            Ok(values) => match encode(types.last(), vals.last()) {
                Ok(value) => Ok(values.push(value)),
                Err(message) => Err(message),
            },
            Err(message) => Err(message),
        }
    }
}

/// The JSON values that stand for the fields of a record, and the types of the fields that the
/// record does not have, or the message of the first error.
pub open spec fn encode_fields(
    types: Map<Seq<char>, TypeView>,
    vals: Seq<(Seq<char>, OutputView)>,
) -> Result<(Map<Seq<char>, JsonView>, Map<Seq<char>, TypeView>), Seq<char>>
    decreases vals, 0nat,
{
    if vals.len() == 0 {
        Ok((Map::empty(), types))
    } else {
        match encode_fields(types, vals.drop_last()) {
            Ok((map, rest)) => {
                let name = vals.last().0;
                if rest.contains_key(name) {
                    match encode(rest[name], vals.last().1) {
                        Ok(value) => Ok((map.insert(name, value), rest.remove(name))),
                        Err(message) => Err(message),
                    }
                } else {
                    Err("invalid key "@ + crate::document::text_debug(name))
                }
            },
            Err(message) => Err(message),
        }
    }
}

/// Values in JSON, or why there are none.
pub open spec fn values_outcome(result: Result<Vec<Json>, String>) -> Result<
    Seq<JsonView>,
    Seq<char>,
> {
    match result {
        Ok(values) => Ok(crate::json::items_view(values@)),
        Err(message) => Err(message@),
    }
}

/// The fields of a record whose types are still to be used, in their order.
pub open spec fn unused_types(types: Seq<(&String, &Type)>) -> Map<Seq<char>, TypeView>
    decreases types.len(),
{
    if types.len() == 0 {
        Map::empty()
    } else {
        unused_types(types.drop_last()).insert(types.last().0@, types.last().1@)
    }
}

/// The entries of an object and the types that are left, or why there are none.
pub open spec fn entries_outcome(
    result: Result<(Vec<(String, Json)>, Vec<(&String, &Type)>), String>,
) -> Result<(Map<Seq<char>, JsonView>, Map<Seq<char>, TypeView>), Seq<char>> {
    match result {
        Ok((entries, types)) => Ok((crate::json::entries_view(entries@), unused_types(types@))),
        Err(message) => Err(message@),
    }
}

pub proof fn lemma_each_stops(item: TypeView, vals: Seq<OutputView>, n: int)
    requires
        0 <= n <= vals.len(),
        encode_each(item, vals.take(n)) is Err,
    ensures
        encode_each(item, vals) == encode_each(item, vals.take(n)),
    decreases vals.len() - n,
{
    if n < vals.len() {
        assert(vals.take(n + 1).drop_last() =~= vals.take(n));
        lemma_each_stops(item, vals, n + 1);
    } else {
        assert(vals.take(n) =~= vals);
    }
}

pub proof fn lemma_zip_stops(types: Seq<TypeView>, vals: Seq<OutputView>, n: int)
    requires
        0 <= n <= vals.len(),
        n <= types.len(),
        encode_zip(types.take(n), vals.take(n)) is Err,
        types.len() == vals.len(),
    ensures
        encode_zip(types, vals) == encode_zip(types.take(n), vals.take(n)),
    decreases vals.len() - n,
{
    if n < vals.len() {
        assert(vals.take(n + 1).drop_last() =~= vals.take(n));
        assert(types.take(n + 1).drop_last() =~= types.take(n));
        lemma_zip_stops(types, vals, n + 1);
    } else {
        assert(vals.take(n) =~= vals);
        assert(types.take(n) =~= types);
    }
}

pub proof fn lemma_fields_stop(
    types: Map<Seq<char>, TypeView>,
    vals: Seq<(Seq<char>, OutputView)>,
    n: int,
)
    requires
        0 <= n <= vals.len(),
        encode_fields(types, vals.take(n)) is Err,
    ensures
        encode_fields(types, vals) == encode_fields(types, vals.take(n)),
    decreases vals.len() - n,
{
    if n < vals.len() {
        assert(vals.take(n + 1).drop_last() =~= vals.take(n));
        lemma_fields_stop(types, vals, n + 1);
    } else {
        assert(vals.take(n) =~= vals);
    }
}

/// Writes an integer in JSON.
fn json_of_integer(integer: i128) -> (json: Json)
    requires
        i64::MIN <= integer <= u64::MAX,
    ensures
        json@ == JsonView::Number(NumberView::Integer(integer as int)),
{
    Json::Number(crate::document::number_of_integer(integer).unwrap())
}

/// Writes a floating-point value in JSON.
fn json_of_float(float: Float) -> (json: Json)
    ensures
        json@ == encode_float(float@),
{
    match float {
        Float::Finite(number) => Json::Number(number),
        Float::NonFinite => Json::Null,
    }
}

/// Writes names in JSON.
fn json_of_names(names: Vec<String>) -> (json: Json)
    ensures
        json@ == encode_names(crate::values::texts_view(names@)),
{
    let ghost given = names@;
    let ghost all = encode_names(crate::values::texts_view(given))->Array_0;
    let mut items: Vec<Json> = Vec::new();
    for name in iter: names
        invariant
            iter.seq() == given,
            all == encode_names(crate::values::texts_view(given))->Array_0,
            crate::json::items_view(items@) == all.take(iter.index()),
    {
        let ghost before = items@;
        let item = Json::String(name);
        items.push(item);
        proof {
            let k = iter.index();
            crate::json::lemma_items_push(before, item);
            assert(all.take(k + 1) =~= all.take(k).push(all[k]));
        }
    }
    assert(all.take(all.len() as int) =~= all);
    Json::Array(items)
}

/// An object with one entry.
fn json_of_entry(key: String, value: Json) -> (json: Json)
    ensures
        json@ == JsonView::Object(map![key@ => value@]),
{
    let mut entries: Vec<(String, Json)> = Vec::new();
    let ghost before = entries@;
    entries.push((key, value));
    proof {
        crate::json::lemma_entries_push(before, (key, value));
        assert(crate::json::entries_view(entries@) =~= map![key@ => value@]);
    }
    Json::Object(entries)
}

/// The fields of a record by their names.
fn types_by_name(fields: &Vec<(String, Type)>) -> (types: Vec<(&String, &Type)>)
    ensures
        unused_types(types@) == field_types(crate::values::fields_view(fields@)),
{
    let ghost all = crate::values::fields_view(fields@);
    let mut types: Vec<(&String, &Type)> = Vec::new();
    let mut i: usize = 0;
    assert(all.take(0) =~= Seq::empty());
    while i < fields.len()
        invariant
            i <= fields.len(),
            all == crate::values::fields_view(fields@),
            unused_types(types@) == field_types(all.take(i as int)),
        decreases fields.len() - i,
    {
        let ghost before = types@;
        types.push((&fields[i].0, &fields[i].1));
        proof {
            assert(types@.drop_last() =~= before);
            assert(all.take(i + 1).drop_last() =~= all.take(i as int));
        }
        i = i + 1;
    }
    assert(all.take(all.len() as int) =~= all);
    types
}

/// Takes the type of a field out of those that are still to be used; gives the others.
fn take_type<'a>(types: Vec<(&'a String, &'a Type)>, name: &String) -> (taken: (
    Option<&'a Type>,
    Vec<(&'a String, &'a Type)>,
))
    ensures
        unused_types(taken.1@) == unused_types(types@).remove(name@),
        match taken.0 {
            Some(ty) => unused_types(types@).contains_key(name@) && unused_types(types@)[name@]
                == ty@,
            None => !unused_types(types@).contains_key(name@),
        },
{
    let ghost all = types@;
    let mut found: Option<&'a Type> = None;
    let mut rest: Vec<(&'a String, &'a Type)> = Vec::new();
    proof {
        assert(all.take(0) =~= Seq::empty());
        assert(unused_types(rest@) =~= unused_types(all.take(0)).remove(name@));
    }
    for field in iter: types
        invariant
            iter.seq() == all,
            unused_types(rest@) == unused_types(all.take(iter.index())).remove(name@),
            match found {
                Some(ty) => unused_types(all.take(iter.index())).contains_key(name@)
                    && unused_types(all.take(iter.index()))[name@] == ty@,
                None => !unused_types(all.take(iter.index())).contains_key(name@),
            },
    {
        proof {
            let k = iter.index();
            assert(all.take(k + 1).drop_last() =~= all.take(k));
        }
        if *field.0 == *name {
            proof {
                let k = iter.index();
                assert(unused_types(all.take(k + 1)).remove(name@) =~= unused_types(
                    all.take(k),
                ).remove(name@));
            }
            found = Some(field.1);
        } else {
            proof {
                let k = iter.index();
                assert(rest@.push(field).drop_last() =~= rest@);
                assert(unused_types(all.take(k + 1)).remove(name@) =~= unused_types(
                    all.take(k),
                ).remove(name@).insert(field.0@, field.1@));
            }
            rest.push(field);
        }
    }
    assert(all.take(all.len() as int) =~= all);
    (found, rest)
}

/// Writes the items of a list.
fn list_to_json(item: &Type, vals: Vec<Output>) -> (result: Result<Vec<Json>, String>)
    ensures
        values_outcome(result) == encode_each(item@, crate::values::outputs_view(vals@)),
    decreases vals@, 0nat,
{
    let ghost given = vals@;
    let ghost all = crate::values::outputs_view(given);
    let mut values: Vec<Json> = Vec::new();
    proof {
        assert(all.take(0) =~= Seq::empty());
        assert(crate::json::items_view(values@) =~= Seq::empty());
    }
    for val in iter: vals
        invariant
            iter.seq() == given,
            given == vals@,
            all == crate::values::outputs_view(given),
            values_outcome(Ok(values)) == encode_each(item@, all.take(iter.index())),
    {
        let ghost k = iter.index();
        proof {
            assert(all.take(k + 1).drop_last() =~= all.take(k));
            assert(decreases_to!(given => given[k]));
        }
        let ghost before = values@;
        match val_to_json(item, val) {
            Ok(value) => {
                values.push(value);
                proof {
                    crate::json::lemma_items_push(before, value);
                }
            },
            Err(message) => {
                proof {
                    lemma_each_stops(item@, all, k + 1);
                }
                return Err(message);
            },
        }
    }
    assert(all.take(all.len() as int) =~= all);
    Ok(values)
}

/// Writes the items of a tuple.
fn tuple_to_json(types: &Vec<Type>, vals: Vec<Output>) -> (result: Result<Vec<Json>, String>)
    requires
        types@.len() == vals@.len(),
    ensures
        values_outcome(result) == encode_zip(
            crate::values::types_view(types@),
            crate::values::outputs_view(vals@),
        ),
    decreases vals@, 0nat,
{
    let ghost given = vals@;
    let ghost all = crate::values::outputs_view(given);
    let ghost tys = crate::values::types_view(types@);
    let mut values: Vec<Json> = Vec::new();
    let mut i: usize = 0;
    proof {
        assert(all.take(0) =~= Seq::empty());
        assert(tys.take(0) =~= Seq::empty());
        assert(crate::json::items_view(values@) =~= Seq::empty());
    }
    for val in iter: vals
        invariant
            iter.seq() == given,
            given == vals@,
            i == iter.index(),
            types@.len() == given.len(),
            all == crate::values::outputs_view(given),
            tys == crate::values::types_view(types@),
            values_outcome(Ok(values)) == encode_zip(tys.take(i as int), all.take(i as int)),
    {
        proof {
            assert(all.take(i + 1).drop_last() =~= all.take(i as int));
            assert(tys.take(i + 1).drop_last() =~= tys.take(i as int));
            assert(decreases_to!(given => given[i as int]));
            assert(i < types.len());
        }
        let ghost before = values@;
        match val_to_json(&types[i], val) {
            Ok(value) => {
                values.push(value);
                proof {
                    crate::json::lemma_items_push(before, value);
                }
            },
            Err(message) => {
                proof {
                    lemma_zip_stops(tys, all, i + 1);
                }
                return Err(message);
            },
        }
        i = i + 1;
    }
    assert(all.take(all.len() as int) =~= all);
    assert(tys.take(tys.len() as int) =~= tys);
    Ok(values)
}

/// Writes the fields of a record.
fn fields_to_json(fields: &Vec<(String, Type)>, vals: Vec<(String, Output)>) -> (result: Result<
    Vec<(String, Json)>,
    String,
>)
    ensures
        match (
            result,
            encode_fields(
                field_types(crate::values::fields_view(fields@)),
                crate::values::field_outputs_view(vals@),
            ),
        ) {
            (Ok(entries), Ok((map, _))) => crate::json::entries_view(entries@) == map,
            (Err(message), Err(text)) => message@ == text,
            _ => false,
        },
    decreases vals@, 0nat,
{
    let ghost given = vals@;
    let ghost all = crate::values::field_outputs_view(given);
    let ghost tys = field_types(crate::values::fields_view(fields@));
    let mut rest = types_by_name(fields);
    let mut entries: Vec<(String, Json)> = Vec::new();
    assert(all.take(0) =~= Seq::empty());
    for field in iter: vals
        invariant
            iter.seq() == given,
            given == vals@,
            all == crate::values::field_outputs_view(given),
            tys == field_types(crate::values::fields_view(fields@)),
            entries_outcome(Ok((entries, rest))) == encode_fields(tys, all.take(iter.index())),
    {
        let ghost k = iter.index();
        let (name, val) = field;
        proof {
            assert(all.take(k + 1).drop_last() =~= all.take(k));
            assert(decreases_to!(given => given[k]));
            assert(decreases_to!(given[k] => given[k].1));
        }
        let ghost before = entries@;
        let (found, others) = take_type(rest, &name);
        rest = others;
        match found {
            Some(ty) => match val_to_json(ty, val) {
                Ok(value) => {
                    proof {
                        crate::json::lemma_entries_push(before, (name, value));
                    }
                    entries.push((name, value));
                },
                Err(message) => {
                    proof {
                        lemma_fields_stop(tys, all, k + 1);
                    }
                    return Err(message);
                },
            },
            None => {
                proof {
                    lemma_fields_stop(tys, all, k + 1);
                }
                let shown = crate::document::debug_text(name.as_str());
                return Err(concat2("invalid key ", shown.as_str()));
            },
        }
    }
    assert(all.take(all.len() as int) =~= all);
    Ok(entries)
}

/// Writes a value of a type in JSON.
pub fn val_to_json(ty: &Type, val: Output) -> (result: Result<Json, String>)
    ensures
        crate::document::json_outcome(result) == encode(ty@, val@),
    decreases val, 0nat,
{
    let Output { content, shown } = val;
    match (&ty.kind, content) {
        (Kind::Bool, Content::Bool(b)) => Ok(Json::Bool(b)),
        (Kind::S8, Content::S8(n)) => Ok(json_of_integer(n as i128)),
        (Kind::U8, Content::U8(n)) => Ok(json_of_integer(n as i128)),
        (Kind::S16, Content::S16(n)) => Ok(json_of_integer(n as i128)),
        (Kind::U16, Content::U16(n)) => Ok(json_of_integer(n as i128)),
        (Kind::S32, Content::S32(n)) => Ok(json_of_integer(n as i128)),
        (Kind::U32, Content::U32(n)) => Ok(json_of_integer(n as i128)),
        (Kind::S64, Content::S64(n)) => Ok(json_of_integer(n as i128)),
        (Kind::U64, Content::U64(n)) => Ok(json_of_integer(n as i128)),
        (Kind::Float32, Content::Float32(float)) => Ok(json_of_float(float)),
        (Kind::Float64, Content::Float64(float)) => Ok(json_of_float(float)),
        (Kind::Char, Content::Char(c)) => Ok(Json::String(single(c))),
        (Kind::String, Content::String(text)) => Ok(Json::String(text)),
        (Kind::List(item), Content::List(vals)) => match list_to_json(item, vals) {
            Ok(values) => Ok(Json::Array(values)),
            Err(message) => Err(message),
        },
        (Kind::Record(fields), Content::Record(vals)) => match fields_to_json(fields, vals) {
            Ok(entries) => Ok(Json::Object(entries)),
            Err(message) => Err(message),
        },
        (Kind::Tuple(types), Content::Tuple(vals)) => {
            if types.len() == vals.len() {
                match tuple_to_json(types, vals) {
                    Ok(values) => Ok(Json::Array(values)),
                    Err(message) => Err(message),
                }
            } else {
                let expected = write_decimal(types.len());
                let got = write_decimal(vals.len());
                Err(concat4("expected ", expected.as_str(), " items; got ", got.as_str()))
            }
        },
        (Kind::Variant(cases), Content::Variant(name, payload)) => match find_case(cases, &name) {
            Some(i) => match optional_val_to_json(cases[i].1.as_ref(), payload) {
                Ok(value) => Ok(json_of_entry(name, value)),
                Err(message) => Err(message),
            },
            None => {
                let shown = crate::document::debug_text(name.as_str());
                Err(concat2("unknown variant case ", shown.as_str()))
            },
        },
        (Kind::Enum, Content::Enum(name)) => Ok(Json::String(name)),
        (Kind::Option(payload_ty), Content::Option(payload)) => match payload {
            Some(val) => val_to_json(payload_ty, *val),
            None => Ok(Json::Null),
        },
        (Kind::Result(ok, _), Content::Result(Ok(payload))) => {
            let payload_ty: Option<&Type> = match ok {
                Some(payload_ty) => Some(payload_ty),
                None => None,
            };
            match optional_val_to_json(payload_ty, payload) {
                Ok(value) => Ok(json_of_entry(String::from_str("ok"), value)),
                Err(message) => Err(message),
            }
        },
        (Kind::Result(_, err), Content::Result(Err(payload))) => {
            let payload_ty: Option<&Type> = match err {
                Some(payload_ty) => Some(payload_ty),
                None => None,
            };
            match optional_val_to_json(payload_ty, payload) {
                Ok(value) => Ok(json_of_entry(String::from_str("error"), value)),
                Err(message) => Err(message),
            }
        },
        (Kind::Flags, Content::Flags(names)) => Ok(json_of_names(names)),
        (Kind::Own, _) => Err(String::from_str("resource types not supported")),
        (Kind::Borrow, _) => Err(String::from_str("resource types not supported")),
        _ => Err(concat4("val ", shown.as_str(), " doesn't match type ", ty.shown.as_str())),
    }
}

/// What an optional type is.
pub open spec fn optional_type_view(ty: Option<&Type>) -> Option<TypeView> {
    match ty {
        Some(ty) => Some(ty@),
        None => None,
    }
}

/// What an optional value is.
pub open spec fn optional_val_view(val: Option<Box<Output>>) -> Option<Box<OutputView>> {
    match val {
        Some(val) => Some(Box::new((*val)@)),
        None => None,
    }
}

/// A text that is present, in a message.
fn show_some(shown: &str) -> (text: String)
    ensures
        text@ == show_optional(Some(shown@)),
{
    concat3("Some(", shown, ")")
}

/// Writes a payload in JSON.
pub fn optional_val_to_json(ty: Option<&Type>, val: Option<Box<Output>>) -> (result: Result<
    Json,
    String,
>)
    ensures
        crate::document::json_outcome(result) == encode_optional(
            optional_type_view(ty),
            optional_val_view(val),
        ),
    decreases val, 0nat,
{
    match (ty, val) {
        (None, None) => Ok(Json::Null),
        (Some(ty), Some(val)) => val_to_json(ty, *val),
        (Some(ty), None) => {
            let ty = show_some(ty.shown.as_str());
            Err(concat4("type val mismatch ", ty.as_str(), ": ", "None"))
        },
        (None, Some(val)) => {
            let val = show_some(val.shown.as_str());
            Err(concat4("type val mismatch ", "None", ": ", val.as_str()))
        },
    }
}

} // verus!
