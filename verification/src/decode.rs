//! From JSON to values: what arguments a request gives.
use crate::integers::integer_from_json;
use crate::json::{take_entry, take_only_entry, Json, JsonView};
use crate::text::{concat2, concat3, concat4, same_text, write_decimal};
use crate::values::{Kind, KindView, Type, TypeView, Val, ValView};
use vstd::prelude::*;
use vstd::string::{StrSliceExecFns, StringExecFns};

verus! {

/// Finds a case by its name: the first that has it.
pub open spec fn case_index(cases: Seq<(Seq<char>, Option<TypeView>)>, name: Seq<char>) -> Option<
    int,
>
    decreases cases.len(),
{
    if cases.len() == 0 {
        None
    } else {
        match case_index(cases.drop_last(), name) {
            Some(i) => Some(i),
            None => if cases.last().0 == name {
                Some(cases.len() - 1)
            } else {
                None
            },
        }
    }
}

pub proof fn lemma_case_index_in_range(
    cases: Seq<(Seq<char>, Option<TypeView>)>,
    name: Seq<char>,
)
    ensures
        case_index(cases, name) matches Some(i) ==> 0 <= i < cases.len() && cases[i].0 == name,
    decreases cases.len(),
{
    if cases.len() > 0 {
        lemma_case_index_in_range(cases.drop_last(), name);
    }
}

/// The value of a type that a JSON value stands for, or the message of the error.
pub open spec fn decode(ty: TypeView, value: JsonView) -> Result<ValView, Seq<char>>
    decreases ty, 0nat,
{
    match ty.kind {
        KindView::Bool => match value {
            JsonView::Bool(b) => Ok(ValView::Bool(b)),
            _ => Err("expected bool"@),
        },
        KindView::S8 => match crate::integers::json_integer(value, i8::MIN as int, i8::MAX as int) {
            Ok(i) => Ok(ValView::S8(i as i8)),
            Err(message) => Err(message),
        },
        KindView::U8 => match crate::integers::json_integer(value, u8::MIN as int, u8::MAX as int) {
            Ok(i) => Ok(ValView::U8(i as u8)),
            Err(message) => Err(message),
        },
        KindView::S16 => match crate::integers::json_integer(value, i16::MIN as int, i16::MAX as int) {
            Ok(i) => Ok(ValView::S16(i as i16)),
            Err(message) => Err(message),
        },
        KindView::U16 => match crate::integers::json_integer(value, u16::MIN as int, u16::MAX as int) {
            Ok(i) => Ok(ValView::U16(i as u16)),
            Err(message) => Err(message),
        },
        KindView::S32 => match crate::integers::json_integer(value, i32::MIN as int, i32::MAX as int) {
            Ok(i) => Ok(ValView::S32(i as i32)),
            Err(message) => Err(message),
        },
        KindView::U32 => match crate::integers::json_integer(value, u32::MIN as int, u32::MAX as int) {
            Ok(i) => Ok(ValView::U32(i as u32)),
            Err(message) => Err(message),
        },
        KindView::S64 => match crate::integers::json_integer(value, i64::MIN as int, i64::MAX as int) {
            Ok(i) => Ok(ValView::S64(i as i64)),
            Err(message) => Err(message),
        },
        KindView::U64 => match crate::integers::json_integer(value, u64::MIN as int, u64::MAX as int) {
            Ok(i) => Ok(ValView::U64(i as u64)),
            Err(message) => Err(message),
        },
        KindView::Float32 => match value {
            JsonView::Number(number) => Ok(ValView::Float32(number)),
            _ => Err("expected float"@),
        },
        KindView::Float64 => match value {
            JsonView::Number(number) => Ok(ValView::Float64(number)),
            _ => Err("expected float"@),
        },
        KindView::Char => match value {
            JsonView::String(text) => if text.len() == 1 {
                Ok(ValView::Char(text[0]))
            } else {
                Err("expected single char"@)
            },
            _ => Err("expected string"@),
        },
        KindView::String => match value {
            JsonView::String(text) => Ok(ValView::String(text)),
            _ => Err("expected string"@),
        },
        KindView::List(item) => match value {
            JsonView::Array(values) => match decode_each(*item, values) {
                Ok(vals) => Ok(ValView::List(vals)),
                Err(message) => Err(message),
            },
            _ => Err("expected array"@),
        },
        KindView::Record(fields) => match value {
            JsonView::Object(map) => match decode_fields(fields, map) {
                Ok((vals, rest)) => if rest.dom() == Set::<Seq<char>>::empty() {
                    Ok(ValView::Record(vals))
                } else {
                    Err("unexpected record field(s): "@ + crate::document::map_debug(rest))
                },
                Err(message) => Err(message),
            },
            _ => Err("expected object"@),
        },
        KindView::Tuple(types) => match value {
            JsonView::Array(values) => if types.len() == values.len() {
                match decode_zip(types, values) {
                    Ok(vals) => Ok(ValView::Tuple(vals)),
                    Err(message) => Err(message),
                }
            } else {
                Err(
                    "expected array of "@ + crate::text::decimal(types.len()) + " items; got "@
                        + crate::text::decimal(values.len()),
                )
            },
            _ => Err("expected array"@),
        },
        KindView::Variant(cases) => match value {
            JsonView::Object(map) => match crate::json::only_entry(map) {
                Some((name, payload)) => match case_index(cases, name) {
                    Some(i) => {
                        proof {
                            lemma_case_index_in_range(cases, name);
                        }
                        match cases[i].1 {
                            Some(payload_ty) => match decode(payload_ty, payload) {
                                Ok(val) => Ok(ValView::Variant(name, Some(Box::new(val)))),
                                Err(message) => Err(message),
                            },
                            None => Ok(ValView::Variant(name, None)),
                        }
                    },
                    None => Err("unknown variant case "@ + name),
                },
                None => Err("expected object with exactly one field"@),
            },
            _ => Err("expected object"@),
        },
        KindView::Enum => match value {
            JsonView::String(name) => Ok(ValView::Enum(name)),
            _ => Err("expected string"@),
        },
        KindView::Option(payload_ty) => match value {
            JsonView::Null => Ok(ValView::Option(None)),
            _ => match decode(*payload_ty, value) {
                Ok(val) => Ok(ValView::Option(Some(Box::new(val)))),
                Err(message) => Err(message),
            },
        },
        KindView::Result(ok, err) => match value {
            JsonView::Object(map) => match crate::json::only_entry(map) {
                Some((name, payload)) => if name == "ok"@ || name == "error"@ {
                    match (if name == "ok"@ {
                        ok
                    } else {
                        err
                    }) {
                        Some(payload_ty) => match decode(*payload_ty, payload) {
                            Ok(val) => Ok(ValView::Result(Ok(Some(Box::new(val))))),
                            Err(message) => Err(message),
                        },
                        None => Ok(ValView::Result(Ok(None))),
                    }
                } else {
                    Err("expected ok or error; got "@ + crate::document::text_debug(name))
                },
                None => Err("expected object with exactly one field (ok or error)"@),
            },
            _ => Err("expected object"@),
        },
        KindView::Flags => match value {
            JsonView::Array(values) => match decode_names(values) {
                Ok(names) => Ok(ValView::Flags(names)),
                Err(message) => Err(message),
            },
            _ => Err("expected array"@),
        },
        KindView::Own => Err("resource types not supported"@),
        KindView::Borrow => Err("resource types not supported"@),
    }
}

/// The values of one type that JSON values stand for, or the message of the first error.
pub open spec fn decode_each(item: TypeView, values: Seq<JsonView>) -> Result<
    Seq<ValView>,
    Seq<char>,
>
    decreases item, values.len() + 1,
{
    if values.len() == 0 {
        Ok(Seq::empty())
    } else {
        match decode_each(item, values.drop_last()) {
            Ok(vals) => match decode(item, values.last()) {
                Ok(val) => Ok(vals.push(val)),
                Err(message) => Err(message),
            },
            Err(message) => Err(message),
        }
    }
}

/// The values, one for each type, that as many JSON values stand for, or the message of the first
/// error.
pub open spec fn decode_zip(types: Seq<TypeView>, values: Seq<JsonView>) -> Result<
    Seq<ValView>,
    Seq<char>,
>
    decreases types, 0nat,
{
    if types.len() == 0 || values.len() == 0 {
        Ok(Seq::empty())
    } else {
        match decode_zip(types.drop_last(), values.drop_last()) {
            Ok(vals) => match decode(types.last(), values.last()) {
                Ok(val) => Ok(vals.push(val)),
                Err(message) => Err(message),
            },
            Err(message) => Err(message),
        }
    }
}

/// The values of the fields of a record, and the entries that are not for any field, or the message
/// of the first error. A field of an option type may be absent.
pub open spec fn decode_fields(
    fields: Seq<(Seq<char>, TypeView)>,
    map: Map<Seq<char>, JsonView>,
) -> Result<(Seq<(Seq<char>, ValView)>, Map<Seq<char>, JsonView>), Seq<char>>
    decreases fields, 0nat,
{
    if fields.len() == 0 {
        Ok((Seq::empty(), map))
    } else {
        match decode_fields(fields.drop_last(), map) {
            Ok((vals, rest)) => {
                let name = fields.last().0;
                if rest.contains_key(name) {
                    match decode(fields.last().1, rest[name]) {
                        Ok(val) => Ok((vals.push((name, val)), rest.remove(name))),
                        Err(message) => Err(message),
                    }
                } else if fields.last().1.kind is Option {
                    Ok((vals.push((name, ValView::Option(None))), rest))
                } else {
                    Err("missing record field '"@ + name + "'"@)
                }
            },
            Err(message) => Err(message),
        }
    }
}

/// The texts of JSON values that are all texts.
pub open spec fn decode_names(values: Seq<JsonView>) -> Result<Seq<Seq<char>>, Seq<char>>
    decreases values.len(),
{
    if values.len() == 0 {
        Ok(Seq::empty())
    } else {
        match decode_names(values.drop_last()) {
            Ok(names) => match values.last() {
                JsonView::String(name) => Ok(names.push(name)),
                _ => Err("expected string"@),
            },
            Err(message) => Err(message),
        }
    }
}

/// A value, or why there is none.
pub open spec fn val_outcome(result: Result<Val, String>) -> Result<ValView, Seq<char>> {
    match result {
        Ok(val) => Ok(val@),
        Err(message) => Err(message@),
    }
}

/// Values, or why there are none.
pub open spec fn vals_outcome(result: Result<Vec<Val>, String>) -> Result<Seq<ValView>, Seq<char>> {
    match result {
        Ok(vals) => Ok(crate::values::vals_view(vals@)),
        Err(message) => Err(message@),
    }
}

/// The fields of a record and the entries that are left, or why there are none.
pub open spec fn fields_outcome(
    result: Result<(Vec<(String, Val)>, Vec<(String, Json)>), String>,
) -> Result<(Seq<(Seq<char>, ValView)>, Map<Seq<char>, JsonView>), Seq<char>> {
    match result {
        Ok((vals, rest)) => Ok(
            (crate::values::field_vals_view(vals@), crate::json::entries_view(rest@)),
        ),
        Err(message) => Err(message@),
    }
}

/// Names, or why there are none.
pub open spec fn names_outcome(result: Result<Vec<String>, String>) -> Result<
    Seq<Seq<char>>,
    Seq<char>,
> {
    match result {
        Ok(names) => Ok(crate::values::texts_view(names@)),
        Err(message) => Err(message@),
    }
}

pub proof fn lemma_each_stops(item: TypeView, values: Seq<JsonView>, n: int)
    requires
        0 <= n <= values.len(),
        decode_each(item, values.take(n)) is Err,
    ensures
        decode_each(item, values) == decode_each(item, values.take(n)),
    decreases values.len() - n,
{
    if n < values.len() {
        assert(values.take(n + 1).drop_last() =~= values.take(n));
        lemma_each_stops(item, values, n + 1);
    } else {
        assert(values.take(n) =~= values);
    }
}

pub proof fn lemma_zip_stops(types: Seq<TypeView>, values: Seq<JsonView>, n: int)
    requires
        0 <= n <= values.len(),
        types.len() == values.len(),
        decode_zip(types.take(n), values.take(n)) is Err,
    ensures
        decode_zip(types, values) == decode_zip(types.take(n), values.take(n)),
    decreases values.len() - n,
{
    if n < values.len() {
        assert(values.take(n + 1).drop_last() =~= values.take(n));
        assert(types.take(n + 1).drop_last() =~= types.take(n));
        lemma_zip_stops(types, values, n + 1);
    } else {
        assert(values.take(n) =~= values);
        assert(types.take(n) =~= types);
    }
}

pub proof fn lemma_fields_stop(
    fields: Seq<(Seq<char>, TypeView)>,
    map: Map<Seq<char>, JsonView>,
    n: int,
)
    requires
        0 <= n <= fields.len(),
        decode_fields(fields.take(n), map) is Err,
    ensures
        decode_fields(fields, map) == decode_fields(fields.take(n), map),
    decreases fields.len() - n,
{
    if n < fields.len() {
        assert(fields.take(n + 1).drop_last() =~= fields.take(n));
        lemma_fields_stop(fields, map, n + 1);
    } else {
        assert(fields.take(n) =~= fields);
    }
}

pub proof fn lemma_names_stop(values: Seq<JsonView>, n: int)
    requires
        0 <= n <= values.len(),
        decode_names(values.take(n)) is Err,
    ensures
        decode_names(values) == decode_names(values.take(n)),
    decreases values.len() - n,
{
    if n < values.len() {
        assert(values.take(n + 1).drop_last() =~= values.take(n));
        lemma_names_stop(values, n + 1);
    } else {
        assert(values.take(n) =~= values);
    }
}

/// A name that the first cases do not have, and the next has or no case has.
pub proof fn lemma_case_index(cases: Seq<(Seq<char>, Option<TypeView>)>, name: Seq<char>, n: int)
    requires
        0 <= n <= cases.len(),
        forall|i: int| 0 <= i < n ==> (#[trigger] cases[i]).0 != name,
        n < cases.len() ==> cases[n].0 == name,
    ensures
        case_index(cases, name) == (if n < cases.len() {
            Some(n)
        } else {
            None
        }),
    decreases cases.len(),
{
    if cases.len() > 0 {
        if n < cases.len() {
            lemma_case_index(cases.drop_last(), name, n);
        } else {
            lemma_case_index(cases.drop_last(), name, n - 1);
        }
    }
}

/// Finds a case by its name.
pub fn find_case(cases: &Vec<(String, Option<Type>)>, name: &String) -> (index: Option<usize>)
    ensures
        match index {
            Some(i) => i < cases@.len() && case_index(
                crate::values::cases_view(cases@),
                name@,
            ) == Some(i as int),
            None => case_index(crate::values::cases_view(cases@), name@) is None,
        },
{
    let ghost all = crate::values::cases_view(cases@);
    let mut i: usize = 0;
    while i < cases.len()
        invariant
            i <= cases.len(),
            all == crate::values::cases_view(cases@),
            forall|j: int| 0 <= j < i ==> (#[trigger] all[j]).0 != name@,
        decreases cases.len() - i,
    {
        if cases[i].0 == *name {
            proof {
                lemma_case_index(all, name@, i as int);
            }
            return Some(i);
        }
        i = i + 1;
    }
    proof {
        lemma_case_index(all, name@, all.len() as int);
    }
    None
}

/// Reads the items of a list.
fn list_from_json(item: &Type, values: Vec<Json>) -> (result: Result<Vec<Val>, String>)
    ensures
        vals_outcome(result) == decode_each(item@, crate::json::items_view(values@)),
    decreases item, 1nat,
{
    let ghost given = values@;
    let ghost all = crate::json::items_view(given);
    let mut vals: Vec<Val> = Vec::new();
    proof {
        assert(all.take(0) =~= Seq::empty());
        assert(crate::values::vals_view(vals@) =~= Seq::empty());
    }
    for value in iter: values
        invariant
            iter.seq() == given,
            given == values@,
            all == crate::json::items_view(given),
            vals_outcome(Ok(vals)) == decode_each(item@, all.take(iter.index())),
    {
        let ghost k = iter.index();
        proof {
            assert(all.take(k + 1).drop_last() =~= all.take(k));
        }
        let ghost before = vals@;
        match val_from_json(item, value) {
            Ok(val) => {
                vals.push(val);
                proof {
                    crate::values::lemma_vals_push(before, val);
                }
            },
            Err(message) => {
                proof {
                    lemma_each_stops(item@, all, k + 1);
                }
                return Err(message);
            },
        }
    }
    assert(all.take(all.len() as int) =~= all);
    Ok(vals)
}

/// Reads the items of a tuple.
fn tuple_from_json(types: &Vec<Type>, values: Vec<Json>) -> (result: Result<Vec<Val>, String>)
    requires
        types@.len() == values@.len(),
    ensures
        vals_outcome(result) == decode_zip(
            crate::values::types_view(types@),
            crate::json::items_view(values@),
        ),
    decreases types@, 1nat,
{
    let ghost given = values@;
    let ghost all = crate::json::items_view(given);
    let ghost tys = crate::values::types_view(types@);
    let mut vals: Vec<Val> = Vec::new();
    let mut i: usize = 0;
    proof {
        assert(all.take(0) =~= Seq::empty());
        assert(tys.take(0) =~= Seq::empty());
        assert(crate::values::vals_view(vals@) =~= Seq::empty());
    }
    for value in iter: values
        invariant
            iter.seq() == given,
            given == values@,
            i == iter.index(),
            types@.len() == given.len(),
            all == crate::json::items_view(given),
            tys == crate::values::types_view(types@),
            vals_outcome(Ok(vals)) == decode_zip(tys.take(i as int), all.take(i as int)),
    {
        proof {
            assert(all.take(i + 1).drop_last() =~= all.take(i as int));
            assert(tys.take(i + 1).drop_last() =~= tys.take(i as int));
            assert(decreases_to!(types@ => types@[i as int]));
            assert(i < types.len());
        }
        let ghost before = vals@;
        match val_from_json(&types[i], value) {
            Ok(val) => {
                vals.push(val);
                proof {
                    crate::values::lemma_vals_push(before, val);
                }
            },
            Err(message) => {
                proof {
                    lemma_zip_stops(tys, all, i + 1);
                }
                return Err(message);
            },
        }
        i = i + 1;
    }
    assert(all.take(all.len() as int) =~= all);
    assert(tys.take(tys.len() as int) =~= tys);
    Ok(vals)
}

/// Reads the fields of a record; gives the entries that are for no field.
fn fields_from_json(fields: &Vec<(String, Type)>, entries: Vec<(String, Json)>) -> (result: Result<
    (Vec<(String, Val)>, Vec<(String, Json)>),
    String,
>)
    ensures
        fields_outcome(result) == decode_fields(
            crate::values::fields_view(fields@),
            crate::json::entries_view(entries@),
        ),
    decreases fields@, 1nat,
{
    let ghost all = crate::values::fields_view(fields@);
    let ghost map = crate::json::entries_view(entries@);
    let mut rest = entries;
    let mut vals: Vec<(String, Val)> = Vec::new();
    let mut i: usize = 0;
    proof {
        assert(all.take(0) =~= Seq::empty());
        assert(crate::values::field_vals_view(vals@) =~= Seq::empty());
    }
    while i < fields.len()
        invariant
            i <= fields.len(),
            all == crate::values::fields_view(fields@),
            map == crate::json::entries_view(entries@),
            fields_outcome(Ok((vals, rest))) == decode_fields(all.take(i as int), map),
        decreases fields.len() - i,
    {
        let name = &fields[i].0;
        let ty = &fields[i].1;
        let ghost before = vals@;
        let ghost rest_before = crate::json::entries_view(rest@);
        proof {
            assert(all.take(i + 1).drop_last() =~= all.take(i as int));
            assert(decreases_to!(fields@ => fields@[i as int]));
            assert(decreases_to!(fields@[i as int] => fields@[i as int].1));
        }
        let (found, others) = take_entry(rest, name);
        rest = others;
        match found {
            Some(value) => match val_from_json(ty, value) {
                Ok(val) => {
                    let entry = (name.clone(), val);
                    proof {
                        crate::values::lemma_field_vals_push(before, entry);
                    }
                    vals.push(entry);
                },
                Err(message) => {
                    proof {
                        lemma_fields_stop(all, map, i + 1);
                    }
                    return Err(message);
                },
            },
            None => {
                assert(rest_before.remove(name@) =~= rest_before);
                if let Kind::Option(_) = &ty.kind {
                    let entry = (name.clone(), Val::Option(None));
                    proof {
                        crate::values::lemma_field_vals_push(before, entry);
                    }
                    vals.push(entry);
                } else {
                    proof {
                        lemma_fields_stop(all, map, i + 1);
                    }
                    return Err(concat3("missing record field '", name.as_str(), "'"));
                }
            },
        }
        i = i + 1;
    }
    assert(all.take(all.len() as int) =~= all);
    Ok((vals, rest))
}

/// Reads the names of flags.
fn names_from_json(values: Vec<Json>) -> (result: Result<Vec<String>, String>)
    ensures
        names_outcome(result) == decode_names(crate::json::items_view(values@)),
{
    let ghost given = values@;
    let ghost all = crate::json::items_view(given);
    let mut names: Vec<String> = Vec::new();
    proof {
        assert(all.take(0) =~= Seq::empty());
        assert(crate::values::texts_view(names@) =~= Seq::empty());
    }
    for value in iter: values
        invariant
            iter.seq() == given,
            given == values@,
            all == crate::json::items_view(given),
            names_outcome(Ok(names)) == decode_names(all.take(iter.index())),
    {
        let ghost k = iter.index();
        proof {
            assert(all.take(k + 1).drop_last() =~= all.take(k));
        }
        let ghost before = names@;
        match value {
            Json::String(name) => {
                names.push(name);
                proof {
                    crate::values::lemma_texts_push(before, name);
                }
            },
            _ => {
                proof {
                    lemma_names_stop(all, k + 1);
                }
                return Err(String::from_str("expected string"));
            },
        }
    }
    assert(all.take(all.len() as int) =~= all);
    Ok(names)
}

/// Reads a payload, if its type says that there is one.
fn payload_from_json(ty: Option<&Type>, value: Json) -> (result: Result<Option<Box<Val>>, String>)
    ensures
        match (ty, result) {
            (Some(ty), Ok(Some(val))) => decode(ty@, value@) == Ok::<ValView, Seq<char>>(val@),
            (Some(ty), Err(message)) => decode(ty@, value@) == Err::<ValView, Seq<char>>(message@),
            (Some(_), Ok(None)) => false,
            (None, _) => result == Ok::<Option<Box<Val>>, String>(None),
        },
    decreases ty, 1nat,
{
    match ty {
        Some(ty) => match val_from_json(ty, value) {
            Ok(val) => Ok(Some(Box::new(val))),
            Err(message) => Err(message),
        },
        None => Ok(None),
    }
}

/// Reads a value of a type from JSON.
pub fn val_from_json(ty: &Type, value: Json) -> (result: Result<Val, String>)
    ensures
        val_outcome(result) == decode(ty@, value@),
    decreases ty, 0nat,
{
    match &ty.kind {
        Kind::Bool => match value {
            Json::Bool(b) => Ok(Val::Bool(b)),
            _ => Err(String::from_str("expected bool")),
        },
        Kind::S8 => match integer_from_json(value, i8::MIN as i128, i8::MAX as i128) {
            Ok(i) => Ok(Val::S8(i as i8)),
            Err(message) => Err(message),
        },
        Kind::U8 => match integer_from_json(value, u8::MIN as i128, u8::MAX as i128) {
            Ok(i) => Ok(Val::U8(i as u8)),
            Err(message) => Err(message),
        },
        Kind::S16 => match integer_from_json(value, i16::MIN as i128, i16::MAX as i128) {
            Ok(i) => Ok(Val::S16(i as i16)),
            Err(message) => Err(message),
        },
        Kind::U16 => match integer_from_json(value, u16::MIN as i128, u16::MAX as i128) {
            Ok(i) => Ok(Val::U16(i as u16)),
            Err(message) => Err(message),
        },
        Kind::S32 => match integer_from_json(value, i32::MIN as i128, i32::MAX as i128) {
            Ok(i) => Ok(Val::S32(i as i32)),
            Err(message) => Err(message),
        },
        Kind::U32 => match integer_from_json(value, u32::MIN as i128, u32::MAX as i128) {
            Ok(i) => Ok(Val::U32(i as u32)),
            Err(message) => Err(message),
        },
        Kind::S64 => match integer_from_json(value, i64::MIN as i128, i64::MAX as i128) {
            Ok(i) => Ok(Val::S64(i as i64)),
            Err(message) => Err(message),
        },
        Kind::U64 => match integer_from_json(value, u64::MIN as i128, u64::MAX as i128) {
            Ok(i) => Ok(Val::U64(i as u64)),
            Err(message) => Err(message),
        },
        Kind::Float32 => match value {
            Json::Number(number) => Ok(Val::Float32(number)),
            _ => Err(String::from_str("expected float")),
        },
        Kind::Float64 => match value {
            Json::Number(number) => Ok(Val::Float64(number)),
            _ => Err(String::from_str("expected float")),
        },
        Kind::Char => match value {
            Json::String(text) => {
                let text = text.as_str();
                if text.unicode_len() == 1 {
                    Ok(Val::Char(text.get_char(0)))
                } else {
                    Err(String::from_str("expected single char"))
                }
            },
            _ => Err(String::from_str("expected string")),
        },
        Kind::String => match value {
            Json::String(text) => Ok(Val::String(text)),
            _ => Err(String::from_str("expected string")),
        },
        Kind::List(item) => match value {
            Json::Array(values) => match list_from_json(item, values) {
                Ok(vals) => Ok(Val::List(vals)),
                Err(message) => Err(message),
            },
            _ => Err(String::from_str("expected array")),
        },
        Kind::Record(fields) => match value {
            Json::Object(entries) => match fields_from_json(fields, entries) {
                Ok((vals, rest)) => {
                    if rest.len() == 0 {
                        assert(crate::json::entries_view(rest@).dom() =~= Set::<Seq<char>>::empty());
                        Ok(Val::Record(vals))
                    } else {
                        proof {
                            crate::json::lemma_some_entry(rest@);
                        }
                        let shown = crate::document::describe_entries(rest);
                        Err(concat2("unexpected record field(s): ", shown.as_str()))
                    }
                },
                Err(message) => Err(message),
            },
            _ => Err(String::from_str("expected object")),
        },
        Kind::Tuple(types) => match value {
            Json::Array(values) => {
                if types.len() == values.len() {
                    match tuple_from_json(types, values) {
                        Ok(vals) => Ok(Val::Tuple(vals)),
                        Err(message) => Err(message),
                    }
                } else {
                    let expected = write_decimal(types.len());
                    let got = write_decimal(values.len());
                    Err(
                        concat4(
                            "expected array of ",
                            expected.as_str(),
                            " items; got ",
                            got.as_str(),
                        ),
                    )
                }
            },
            _ => Err(String::from_str("expected array")),
        },
        Kind::Variant(cases) => match value {
            Json::Object(entries) => match take_only_entry(entries) {
                Some((name, payload)) => match find_case(cases, &name) {
                    Some(i) => {
                        assert(crate::values::cases_view(cases@)[i as int].1 == match cases@[i as int].1 {
                            Some(t) => Some(t.view()),
                            None => None,
                        });
                        match payload_from_json(cases[i].1.as_ref(), payload) {
                            Ok(val) => Ok(Val::Variant(name, val)),
                            Err(message) => Err(message),
                        }
                    },
                    None => Err(concat2("unknown variant case ", name.as_str())),
                },
                None => Err(String::from_str("expected object with exactly one field")),
            },
            _ => Err(String::from_str("expected object")),
        },
        Kind::Enum => match value {
            Json::String(name) => Ok(Val::Enum(name)),
            _ => Err(String::from_str("expected string")),
        },
        Kind::Option(payload_ty) => match value {
            Json::Null => Ok(Val::Option(None)),
            some => match val_from_json(payload_ty, some) {
                Ok(val) => Ok(Val::Option(Some(Box::new(val)))),
                Err(message) => Err(message),
            },
        },
        Kind::Result(ok, err) => match value {
            Json::Object(entries) => match take_only_entry(entries) {
                Some((name, payload)) => {
                    let payload_ty = if same_text(&name, "ok") {
                        ok
                    } else if same_text(&name, "error") {
                        err
                    } else {
                        let shown = crate::document::debug_text(name.as_str());
                        return Err(concat2("expected ok or error; got ", shown.as_str()));
                    };
                    match payload_ty {
                        Some(payload_ty) => match val_from_json(payload_ty, payload) {
                            Ok(val) => Ok(Val::Result(Ok(Some(Box::new(val))))),
                            Err(message) => Err(message),
                        },
                        None => Ok(Val::Result(Ok(None))),
                    }
                },
                None => Err(
                    String::from_str("expected object with exactly one field (ok or error)"),
                ),
            },
            _ => Err(String::from_str("expected object")),
        },
        Kind::Flags => match value {
            Json::Array(values) => match names_from_json(values) {
                Ok(names) => Ok(Val::Flags(names)),
                Err(message) => Err(message),
            },
            _ => Err(String::from_str("expected array")),
        },
        Kind::Own => Err(String::from_str("resource types not supported")),
        Kind::Borrow => Err(String::from_str("resource types not supported")),
    }
}

} // verus!
