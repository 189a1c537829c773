//! What holds of the values that are read and written, as a whole.
use crate::json::{JsonView, NumberView};
use crate::values::{ContentView, FloatView, KindView, OutputView, TypeView, ValView};
use vstd::prelude::*;

verus! {

/// Whether no two fields have one name.
pub open spec fn distinct_names(fields: Seq<(Seq<char>, TypeView)>) -> bool {
    forall|i: int, j: int|
        0 <= i < j < fields.len() ==> (#[trigger] fields[i]).0 != (#[trigger] fields[j]).0
}

/// Whether a returned value is of a type.
pub open spec fn fits(ty: TypeView, val: OutputView) -> bool
    decreases val, 0nat,
{
    match (ty.kind, val.content) {
        (KindView::Bool, ContentView::Bool(_)) => true,
        (KindView::S8, ContentView::S8(_)) => true,
        (KindView::U8, ContentView::U8(_)) => true,
        (KindView::S16, ContentView::S16(_)) => true,
        (KindView::U16, ContentView::U16(_)) => true,
        (KindView::S32, ContentView::S32(_)) => true,
        (KindView::U32, ContentView::U32(_)) => true,
        (KindView::S64, ContentView::S64(_)) => true,
        (KindView::U64, ContentView::U64(_)) => true,
        (KindView::Float32, ContentView::Float32(_)) => true,
        (KindView::Float64, ContentView::Float64(_)) => true,
        (KindView::Char, ContentView::Char(_)) => true,
        (KindView::String, ContentView::String(_)) => true,
        (KindView::List(item), ContentView::List(vals)) => forall|i: int|
            0 <= i < vals.len() ==> fits(*item, #[trigger] vals[i]),
        (KindView::Record(fields), ContentView::Record(vals)) => {
            &&& distinct_names(fields)
            &&& fields.len() == vals.len()
            &&& forall|i: int|
                0 <= i < vals.len() ==> (#[trigger] vals[i]).0 == fields[i].0 && fits(
                    fields[i].1,
                    vals[i].1,
                )
        },
        (KindView::Tuple(types), ContentView::Tuple(vals)) => {
            &&& types.len() == vals.len()
            &&& forall|i: int| 0 <= i < vals.len() ==> fits(types[i], #[trigger] vals[i])
        },
        (KindView::Variant(cases), ContentView::Variant(name, payload)) => {
            match crate::decode::case_index(cases, name) {
                Some(i) => payload_fits(cases[i].1, payload),
                None => false,
            }
        },
        (KindView::Enum, ContentView::Enum(_)) => true,
        (KindView::Option(payload_ty), ContentView::Option(payload)) => match payload {
            Some(val) => fits(*payload_ty, *val),
            None => true,
        },
        (KindView::Result(ok, err), ContentView::Result(Ok(payload))) => payload_fits(
            crate::encode::unboxed(ok),
            payload,
        ),
        (KindView::Result(ok, err), ContentView::Result(Err(payload))) => payload_fits(
            crate::encode::unboxed(err),
            payload,
        ),
        (KindView::Flags, ContentView::Flags(_)) => true,
        _ => false,
    }
}

/// Whether a returned payload is of a type, and present exactly where there is a type for it.
pub open spec fn payload_fits(ty: Option<TypeView>, payload: Option<Box<OutputView>>) -> bool
    decreases payload, 0nat,
{
    match (ty, payload) {
        (None, None) => true,
        (Some(ty), Some(val)) => fits(ty, *val),
        _ => false,
    }
}

/// Whether an argument is of a type. A result is a success, whose payload is of the type of either
/// payload.
pub open spec fn suits(ty: TypeView, val: ValView) -> bool
    decreases val, 0nat,
{
    match (ty.kind, val) {
        (KindView::Bool, ValView::Bool(_)) => true,
        (KindView::S8, ValView::S8(_)) => true,
        (KindView::U8, ValView::U8(_)) => true,
        (KindView::S16, ValView::S16(_)) => true,
        (KindView::U16, ValView::U16(_)) => true,
        (KindView::S32, ValView::S32(_)) => true,
        (KindView::U32, ValView::U32(_)) => true,
        (KindView::S64, ValView::S64(_)) => true,
        (KindView::U64, ValView::U64(_)) => true,
        (KindView::Float32, ValView::Float32(_)) => true,
        (KindView::Float64, ValView::Float64(_)) => true,
        (KindView::Char, ValView::Char(_)) => true,
        (KindView::String, ValView::String(_)) => true,
        (KindView::List(item), ValView::List(vals)) => forall|i: int|
            0 <= i < vals.len() ==> suits(*item, #[trigger] vals[i]),
        (KindView::Record(fields), ValView::Record(vals)) => {
            &&& distinct_names(fields)
            &&& fields.len() == vals.len()
            &&& forall|i: int|
                0 <= i < vals.len() ==> (#[trigger] vals[i]).0 == fields[i].0 && suits(
                    fields[i].1,
                    vals[i].1,
                )
        },
        (KindView::Tuple(types), ValView::Tuple(vals)) => {
            &&& types.len() == vals.len()
            &&& forall|i: int| 0 <= i < vals.len() ==> suits(types[i], #[trigger] vals[i])
        },
        (KindView::Variant(cases), ValView::Variant(name, payload)) => {
            match crate::decode::case_index(cases, name) {
                Some(i) => payload_suits(cases[i].1, payload),
                None => false,
            }
        },
        (KindView::Enum, ValView::Enum(_)) => true,
        (KindView::Option(payload_ty), ValView::Option(payload)) => match payload {
            Some(val) => suits(*payload_ty, *val),
            None => true,
        },
        (KindView::Result(ok, err), ValView::Result(Ok(payload))) => {
            ||| payload_suits(crate::encode::unboxed(ok), payload)
            ||| payload_suits(crate::encode::unboxed(err), payload)
        },
        (KindView::Flags, ValView::Flags(_)) => true,
        _ => false,
    }
}

/// Whether a payload is of a type, and present exactly where there is a type for it.
pub open spec fn payload_suits(ty: Option<TypeView>, payload: Option<Box<ValView>>) -> bool
    decreases payload, 0nat,
{
    match (ty, payload) {
        (None, None) => true,
        (Some(ty), Some(val)) => suits(ty, *val),
        _ => false,
    }
}

/// Whether an argument is the same value as a returned one: a floating-point argument is the same as
/// the value that its number writes.
pub open spec fn same_value(val: ValView, output: OutputView) -> bool
    decreases output, 0nat,
{
    match (val, output.content) {
        (ValView::Bool(a), ContentView::Bool(b)) => a == b,
        (ValView::S8(a), ContentView::S8(b)) => a == b,
        (ValView::U8(a), ContentView::U8(b)) => a == b,
        (ValView::S16(a), ContentView::S16(b)) => a == b,
        (ValView::U16(a), ContentView::U16(b)) => a == b,
        (ValView::S32(a), ContentView::S32(b)) => a == b,
        (ValView::U32(a), ContentView::U32(b)) => a == b,
        (ValView::S64(a), ContentView::S64(b)) => a == b,
        (ValView::U64(a), ContentView::U64(b)) => a == b,
        (ValView::Float32(number), ContentView::Float32(float)) => float == FloatView::Finite(
            number,
        ),
        (ValView::Float64(number), ContentView::Float64(float)) => float == FloatView::Finite(
            number,
        ),
        (ValView::Char(a), ContentView::Char(b)) => a == b,
        (ValView::String(a), ContentView::String(b)) => a == b,
        (ValView::List(vals), ContentView::List(outputs)) => same_values(vals, outputs),
        (ValView::Record(vals), ContentView::Record(outputs)) => {
            &&& vals.len() == outputs.len()
            &&& forall|i: int|
                0 <= i < outputs.len() ==> vals[i].0 == (#[trigger] outputs[i]).0 && same_value(
                    vals[i].1,
                    outputs[i].1,
                )
        },
        (ValView::Tuple(vals), ContentView::Tuple(outputs)) => same_values(vals, outputs),
        (ValView::Variant(a, payload), ContentView::Variant(b, returned)) => a == b
            && same_payload(payload, returned),
        (ValView::Enum(a), ContentView::Enum(b)) => a == b,
        (ValView::Option(payload), ContentView::Option(returned)) => same_payload(
            payload,
            returned,
        ),
        (ValView::Result(Ok(payload)), ContentView::Result(Ok(returned))) => same_payload(
            payload,
            returned,
        ),
        (ValView::Result(Err(payload)), ContentView::Result(Err(returned))) => same_payload(
            payload,
            returned,
        ),
        (ValView::Flags(a), ContentView::Flags(b)) => a == b,
        _ => false,
    }
}

/// Whether arguments are the same values as returned ones.
pub open spec fn same_values(vals: Seq<ValView>, outputs: Seq<OutputView>) -> bool
    decreases outputs, 0nat,
{
    &&& vals.len() == outputs.len()
    &&& forall|i: int| 0 <= i < outputs.len() ==> same_value(vals[i], #[trigger] outputs[i])
}

/// Whether a payload is the same value as a returned one.
pub open spec fn same_payload(payload: Option<Box<ValView>>, returned: Option<Box<OutputView>>) -> bool
    decreases returned, 0nat,
{
    match (payload, returned) {
        (None, None) => true,
        (Some(val), Some(output)) => same_value(*val, *output),
        _ => false,
    }
}

/// Whether JSON can tell a value from the others of its type, and the reader keeps it apart: it has
/// no float that is not finite, no present option whose payload is an absent one, and no failure.
pub open spec fn reads_back(val: OutputView) -> bool
    decreases val,
{
    match val.content {
        ContentView::Float32(float) => float is Finite,
        ContentView::Float64(float) => float is Finite,
        ContentView::List(vals) => forall|i: int|
            0 <= i < vals.len() ==> reads_back(#[trigger] vals[i]),
        ContentView::Record(vals) => forall|i: int|
            0 <= i < vals.len() ==> reads_back((#[trigger] vals[i]).1),
        ContentView::Tuple(vals) => forall|i: int|
            0 <= i < vals.len() ==> reads_back(#[trigger] vals[i]),
        ContentView::Variant(_, Some(payload)) => reads_back(*payload),
        ContentView::Option(Some(payload)) => payload.content != ContentView::Option(None)
            && reads_back(*payload),
        ContentView::Result(Ok(Some(payload))) => reads_back(*payload),
        ContentView::Result(Err(_)) => false,
        _ => true,
    }
}

/// Whether the fields of every record that a type mentions have distinct names.
pub open spec fn valid_type(ty: TypeView) -> bool
    decreases ty,
{
    match ty.kind {
        KindView::List(item) => valid_type(*item),
        KindView::Record(fields) => distinct_names(fields) && forall|i: int|
            0 <= i < fields.len() ==> valid_type((#[trigger] fields[i]).1),
        KindView::Tuple(types) => forall|i: int|
            0 <= i < types.len() ==> valid_type(#[trigger] types[i]),
        KindView::Variant(cases) => forall|i: int|
            0 <= i < cases.len() ==> match (#[trigger] cases[i]).1 {
                Some(payload_ty) => valid_type(payload_ty),
                None => true,
            },
        KindView::Option(payload_ty) => valid_type(*payload_ty),
        KindView::Result(ok, err) => {
            &&& match ok {
                Some(payload_ty) => valid_type(*payload_ty),
                None => true,
            }
            &&& match err {
                Some(payload_ty) => valid_type(*payload_ty),
                None => true,
            }
        },
        _ => true,
    }
}

/// The names of the first fields.
spec fn has_name(fields: Seq<(Seq<char>, TypeView)>, n: int, name: Seq<char>) -> bool {
    exists|i: int| 0 <= i < n && (#[trigger] fields[i]).0 == name
}

/// The types of fields with distinct names, by name.
proof fn lemma_field_types(fields: Seq<(Seq<char>, TypeView)>)
    requires
        distinct_names(fields),
    ensures
        forall|i: int|
            0 <= i < fields.len() ==> crate::encode::field_types(fields).contains_key(
                (#[trigger] fields[i]).0,
            ) && crate::encode::field_types(fields)[fields[i].0] == fields[i].1,
    decreases fields.len(),
{
    if fields.len() > 0 {
        let shorter = fields.drop_last();
        lemma_field_types(shorter);
        assert forall|i: int| 0 <= i < fields.len() implies crate::encode::field_types(
            fields,
        ).contains_key((#[trigger] fields[i]).0) && crate::encode::field_types(fields)[fields[i].0]
            == fields[i].1 by {
            if i < fields.len() - 1 {
                assert(shorter[i] == fields[i]);
            }
        }
    }
}

/// What the JSON of the first fields of a record is, where each of them can be written.
proof fn lemma_encode_fields(
    fields: Seq<(Seq<char>, TypeView)>,
    vals: Seq<(Seq<char>, OutputView)>,
    n: int,
)
    requires
        distinct_names(fields),
        fields.len() == vals.len(),
        0 <= n <= vals.len(),
        forall|i: int|
            0 <= i < vals.len() ==> (#[trigger] vals[i]).0 == fields[i].0 && crate::encode::encode(
                fields[i].1,
                vals[i].1,
            ) is Ok,
    ensures
        crate::encode::encode_fields(crate::encode::field_types(fields), vals.take(n)) is Ok,
        ({
            let (map, rest) = crate::encode::encode_fields(
                crate::encode::field_types(fields),
                vals.take(n),
            )->Ok_0;
            &&& forall|i: int|
                0 <= i < n ==> map.contains_key((#[trigger] fields[i]).0) && map[fields[i].0]
                    == crate::encode::encode(fields[i].1, vals[i].1)->Ok_0
            &&& forall|name: Seq<char>| #[trigger]
                map.contains_key(name) ==> has_name(fields, n, name)
            &&& forall|i: int|
                n <= i < fields.len() ==> rest.contains_key((#[trigger] fields[i]).0)
                    && rest[fields[i].0] == fields[i].1
        }),
    decreases n,
{
    lemma_field_types(fields);
    if n == 0 {
        assert(vals.take(0) =~= Seq::empty());
    } else {
        lemma_encode_fields(fields, vals, n - 1);
        assert(vals.take(n).drop_last() =~= vals.take(n - 1));
        let types = crate::encode::field_types(fields);
        let map0 = crate::encode::encode_fields(types, vals.take(n - 1))->Ok_0.0;
        let map = crate::encode::encode_fields(types, vals.take(n))->Ok_0.0;
        assert(map == map0.insert(
            fields[n - 1].0,
            crate::encode::encode(fields[n - 1].1, vals[n - 1].1)->Ok_0,
        ));
    }
}

/// What the first fields of a record read from a map that has each of them.
proof fn lemma_decode_fields(
    fields: Seq<(Seq<char>, TypeView)>,
    vals: Seq<(Seq<char>, ValView)>,
    map: Map<Seq<char>, JsonView>,
    n: int,
)
    requires
        distinct_names(fields),
        fields.len() == vals.len(),
        0 <= n <= vals.len(),
        forall|i: int|
            0 <= i < vals.len() ==> (#[trigger] vals[i]).0 == fields[i].0 && map.contains_key(
                fields[i].0,
            ) && crate::decode::decode(fields[i].1, map[fields[i].0]) == Ok::<ValView, Seq<char>>(
                vals[i].1,
            ),
        forall|name: Seq<char>| #[trigger]
            map.contains_key(name) ==> has_name(fields, fields.len() as int, name),
    ensures
        crate::decode::decode_fields(fields.take(n), map) is Ok,
        ({
            let (read, rest) = crate::decode::decode_fields(fields.take(n), map)->Ok_0;
            &&& read == vals.take(n)
            &&& forall|name: Seq<char>|
                #![trigger rest.contains_key(name)]
                rest.contains_key(name) <==> map.contains_key(name) && !has_name(fields, n, name)
            &&& forall|name: Seq<char>| #[trigger]
                rest.contains_key(name) ==> rest[name] == map[name]
        }),
    decreases n,
{
    if n == 0 {
        assert(fields.take(0) =~= Seq::empty());
        assert(vals.take(0) =~= Seq::empty());
    } else {
        lemma_decode_fields(fields, vals, map, n - 1);
        assert(fields.take(n).drop_last() =~= fields.take(n - 1));
        let name = fields[n - 1].0;
        assert(vals[n - 1].0 == name);
        assert(!has_name(fields, n - 1, name));
        assert(crate::decode::decode_fields(fields.take(n), map)->Ok_0.0 =~= vals.take(n));
    }
}

/// A list whose items can each be written is written item by item.
pub proof fn lemma_encode_each(item: TypeView, vals: Seq<OutputView>)
    requires
        forall|i: int|
            0 <= i < vals.len() ==> crate::encode::encode(item, #[trigger] vals[i]) is Ok,
    ensures
        crate::encode::encode_each(item, vals) is Ok,
        crate::encode::encode_each(item, vals)->Ok_0.len() == vals.len(),
        forall|i: int|
            0 <= i < vals.len() ==> (#[trigger] crate::encode::encode_each(item, vals)->Ok_0[i])
                == crate::encode::encode(item, vals[i])->Ok_0,
    decreases vals.len(),
{
    if vals.len() > 0 {
        let shorter = vals.drop_last();
        lemma_encode_each(item, shorter);
        assert forall|i: int| 0 <= i < vals.len() implies (#[trigger] crate::encode::encode_each(
            item,
            vals,
        )->Ok_0[i]) == crate::encode::encode(item, vals[i])->Ok_0 by {
            if i < vals.len() - 1 {
                assert(crate::encode::encode_each(item, shorter)->Ok_0[i] == crate::encode::encode(
                    item,
                    shorter[i],
                )->Ok_0);
            }
        }
    }
}

/// A list of which each item reads as a value reads as the list of those values.
pub proof fn lemma_decode_each(item: TypeView, values: Seq<JsonView>, vals: Seq<ValView>)
    requires
        values.len() == vals.len(),
        forall|i: int|
            0 <= i < values.len() ==> crate::decode::decode(item, #[trigger] values[i]) == Ok::<
                ValView,
                Seq<char>,
            >(vals[i]),
    ensures
        crate::decode::decode_each(item, values) == Ok::<Seq<ValView>, Seq<char>>(vals),
    decreases values.len(),
{
    if values.len() > 0 {
        let shorter = values.drop_last();
        lemma_decode_each(item, shorter, vals.drop_last());
        assert(vals.drop_last().push(vals.last()) =~= vals);
    } else {
        assert(vals =~= Seq::empty());
    }
}

/// A tuple whose items can each be written is written item by item.
pub proof fn lemma_encode_zip(types: Seq<TypeView>, vals: Seq<OutputView>)
    requires
        types.len() == vals.len(),
        forall|i: int|
            0 <= i < vals.len() ==> crate::encode::encode(types[i], #[trigger] vals[i]) is Ok,
    ensures
        crate::encode::encode_zip(types, vals) is Ok,
        crate::encode::encode_zip(types, vals)->Ok_0.len() == vals.len(),
        forall|i: int|
            0 <= i < vals.len() ==> (#[trigger] crate::encode::encode_zip(types, vals)->Ok_0[i])
                == crate::encode::encode(types[i], vals[i])->Ok_0,
    decreases vals.len(),
{
    if vals.len() > 0 {
        let shorter = vals.drop_last();
        let tys = types.drop_last();
        lemma_encode_zip(tys, shorter);
        assert forall|i: int| 0 <= i < vals.len() implies (#[trigger] crate::encode::encode_zip(
            types,
            vals,
        )->Ok_0[i]) == crate::encode::encode(types[i], vals[i])->Ok_0 by {
            if i < vals.len() - 1 {
                assert(crate::encode::encode_zip(tys, shorter)->Ok_0[i] == crate::encode::encode(
                    tys[i],
                    shorter[i],
                )->Ok_0);
            }
        }
    }
}

/// A tuple of which each item reads as a value reads as the tuple of those values.
pub proof fn lemma_decode_zip(types: Seq<TypeView>, values: Seq<JsonView>, vals: Seq<ValView>)
    requires
        types.len() == values.len(),
        values.len() == vals.len(),
        forall|i: int|
            0 <= i < values.len() ==> crate::decode::decode(types[i], #[trigger] values[i]) == Ok::<
                ValView,
                Seq<char>,
            >(vals[i]),
    ensures
        crate::decode::decode_zip(types, values) == Ok::<Seq<ValView>, Seq<char>>(vals),
    decreases values.len(),
{
    if values.len() > 0 {
        let shorter = values.drop_last();
        let tys = types.drop_last();
        lemma_decode_zip(tys, shorter, vals.drop_last());
        assert(vals.drop_last().push(vals.last()) =~= vals);
    } else {
        assert(vals =~= Seq::empty());
    }
}

/// Names that were written read as they were.
proof fn lemma_names(names: Seq<Seq<char>>)
    ensures
        crate::decode::decode_names(crate::encode::encode_names(names)->Array_0) == Ok::<
            Seq<Seq<char>>,
            Seq<char>,
        >(names),
    decreases names.len(),
{
    let values = crate::encode::encode_names(names)->Array_0;
    if names.len() > 0 {
        lemma_names(names.drop_last());
        assert(values.drop_last() =~= crate::encode::encode_names(names.drop_last())->Array_0);
        assert(names.drop_last().push(names.last()) =~= names);
    } else {
        assert(names =~= Seq::empty());
    }
}

/// Every value of a type can be written.
pub proof fn law_typed_values_are_written(ty: TypeView, val: OutputView)
    requires
        fits(ty, val),
    ensures
        crate::encode::encode(ty, val) is Ok,
    decreases val,
{
    match (ty.kind, val.content) {
        (KindView::List(item), ContentView::List(vals)) => {
            assert forall|i: int| 0 <= i < vals.len() implies crate::encode::encode(
                *item,
                #[trigger] vals[i],
            ) is Ok by {
                law_typed_values_are_written(*item, vals[i]);
            }
            lemma_encode_each(*item, vals);
        },
        (KindView::Record(fields), ContentView::Record(vals)) => {
            assert forall|i: int| 0 <= i < vals.len() implies (#[trigger] vals[i]).0 == fields[i].0
                && crate::encode::encode(fields[i].1, vals[i].1) is Ok by {
                law_typed_values_are_written(fields[i].1, vals[i].1);
            }
            lemma_encode_fields(fields, vals, vals.len() as int);
            assert(vals.take(vals.len() as int) =~= vals);
        },
        (KindView::Tuple(types), ContentView::Tuple(vals)) => {
            assert forall|i: int| 0 <= i < vals.len() implies crate::encode::encode(
                types[i],
                #[trigger] vals[i],
            ) is Ok by {
                law_typed_values_are_written(types[i], vals[i]);
            }
            lemma_encode_zip(types, vals);
        },
        (KindView::Variant(cases), ContentView::Variant(name, Some(payload))) => {
            let i = crate::decode::case_index(cases, name)->0;
            assert(payload_fits(cases[i].1, Some(payload)));
            law_typed_values_are_written(cases[i].1->0, *payload);
            assert(crate::encode::encode_optional(cases[i].1, Some(payload)) is Ok);
        },
        (KindView::Variant(cases), ContentView::Variant(name, None)) => {
            let i = crate::decode::case_index(cases, name)->0;
            assert(payload_fits(cases[i].1, None));
            assert(crate::encode::encode_optional(cases[i].1, None) is Ok);
        },
        (KindView::Option(payload_ty), ContentView::Option(Some(payload))) => {
            law_typed_values_are_written(*payload_ty, *payload);
        },
        (KindView::Result(ok, _), ContentView::Result(Ok(payload))) => {
            assert(payload_fits(crate::encode::unboxed(ok), payload));
            if payload is Some {
                law_typed_values_are_written(*ok->0, *payload->0);
            }
            assert(crate::encode::encode_optional(crate::encode::unboxed(ok), payload) is Ok);
        },
        (KindView::Result(_, err), ContentView::Result(Err(payload))) => {
            assert(payload_fits(crate::encode::unboxed(err), payload));
            if payload is Some {
                law_typed_values_are_written(*err->0, *payload->0);
            }
            assert(crate::encode::encode_optional(crate::encode::unboxed(err), payload) is Ok);
        },
        _ => {},
    }
}

/// Only an absent option is written as null, of the values that read back.
proof fn lemma_written_as_null(ty: TypeView, val: OutputView)
    requires
        fits(ty, val),
        reads_back(val),
        crate::encode::encode(ty, val) == Ok::<JsonView, Seq<char>>(JsonView::Null),
    ensures
        val.content == ContentView::Option(None),
    decreases val,
{
    match (ty.kind, val.content) {
        (KindView::Option(payload_ty), ContentView::Option(Some(payload))) => {
            lemma_written_as_null(*payload_ty, *payload);
        },
        _ => {},
    }
}


/// What is written reads as the value that it was, where JSON can tell it and the reader keeps it
/// apart.
pub proof fn law_written_values_read_back(ty: TypeView, val: OutputView)
    requires
        fits(ty, val),
        reads_back(val),
    ensures
        crate::encode::encode(ty, val) is Ok,
        crate::decode::decode(ty, crate::encode::encode(ty, val)->Ok_0) is Ok,
        same_value(
            crate::decode::decode(ty, crate::encode::encode(ty, val)->Ok_0)->Ok_0,
            val,
        ),
    decreases val,
{
    law_typed_values_are_written(ty, val);
    let value = crate::encode::encode(ty, val)->Ok_0;
    match (ty.kind, val.content) {
        (KindView::List(item), ContentView::List(outputs)) => {
            assert forall|i: int| 0 <= i < outputs.len() implies crate::encode::encode(
                *item,
                #[trigger] outputs[i],
            ) is Ok by {
                law_written_values_read_back(*item, outputs[i]);
            }
            lemma_encode_each(*item, outputs);
            let values = crate::encode::encode_each(*item, outputs)->Ok_0;
            let vals = Seq::new(
                values.len(),
                |i: int| crate::decode::decode(*item, values[i])->Ok_0,
            );
            assert forall|i: int| 0 <= i < values.len() implies crate::decode::decode(
                *item,
                #[trigger] values[i],
            ) == Ok::<ValView, Seq<char>>(vals[i]) by {
                law_written_values_read_back(*item, outputs[i]);
            }
            lemma_decode_each(*item, values, vals);
            assert forall|i: int| 0 <= i < outputs.len() implies same_value(
                vals[i],
                #[trigger] outputs[i],
            ) by {
                law_written_values_read_back(*item, outputs[i]);
            }
            assert(same_values(vals, outputs));
        },
        (KindView::Record(fields), ContentView::Record(outputs)) => {
            assert forall|i: int| 0 <= i < outputs.len() implies (#[trigger] outputs[i]).0
                == fields[i].0 && crate::encode::encode(fields[i].1, outputs[i].1) is Ok by {
                law_written_values_read_back(fields[i].1, outputs[i].1);
            }
            lemma_encode_fields(fields, outputs, outputs.len() as int);
            assert(outputs.take(outputs.len() as int) =~= outputs);
            assert(fields.take(fields.len() as int) =~= fields);
            let map = crate::encode::encode_fields(
                crate::encode::field_types(fields),
                outputs,
            )->Ok_0.0;
            let vals = Seq::new(
                outputs.len(),
                |i: int|
                    (
                        outputs[i].0,
                        crate::decode::decode(fields[i].1, map[fields[i].0])->Ok_0,
                    ),
            );
            assert forall|i: int| 0 <= i < vals.len() implies (#[trigger] vals[i]).0 == fields[i].0
                && map.contains_key(fields[i].0) && crate::decode::decode(
                fields[i].1,
                map[fields[i].0],
            ) == Ok::<ValView, Seq<char>>(vals[i].1) by {
                assert(outputs[i].0 == fields[i].0);
                law_written_values_read_back(fields[i].1, outputs[i].1);
            }
            lemma_decode_fields(fields, vals, map, fields.len() as int);
            assert(vals.take(vals.len() as int) =~= vals);
            let rest = crate::decode::decode_fields(fields, map)->Ok_0.1;
            assert forall|name: Seq<char>| !(#[trigger] rest.dom().contains(name)) by {
                if rest.contains_key(name) {
                    assert(map.contains_key(name));
                }
            }
            assert(rest.dom() =~= Set::<Seq<char>>::empty());
            assert forall|i: int| 0 <= i < outputs.len() implies vals[i].0 == (
            #[trigger] outputs[i]).0 && same_value(vals[i].1, outputs[i].1) by {
                law_written_values_read_back(fields[i].1, outputs[i].1);
            }
        },
        (KindView::Tuple(types), ContentView::Tuple(outputs)) => {
            assert forall|i: int| 0 <= i < outputs.len() implies crate::encode::encode(
                types[i],
                #[trigger] outputs[i],
            ) is Ok by {
                law_written_values_read_back(types[i], outputs[i]);
            }
            lemma_encode_zip(types, outputs);
            let values = crate::encode::encode_zip(types, outputs)->Ok_0;
            let vals = Seq::new(
                values.len(),
                |i: int| crate::decode::decode(types[i], values[i])->Ok_0,
            );
            assert forall|i: int| 0 <= i < values.len() implies crate::decode::decode(
                types[i],
                #[trigger] values[i],
            ) == Ok::<ValView, Seq<char>>(vals[i]) by {
                law_written_values_read_back(types[i], outputs[i]);
            }
            lemma_decode_zip(types, values, vals);
            assert forall|i: int| 0 <= i < outputs.len() implies same_value(
                vals[i],
                #[trigger] outputs[i],
            ) by {
                law_written_values_read_back(types[i], outputs[i]);
            }
            assert(same_values(vals, outputs));
        },
        (KindView::Variant(cases), ContentView::Variant(name, payload)) => {
            let i = crate::decode::case_index(cases, name)->0;
            let map = value->Object_0;
            let inner = crate::encode::encode_optional(cases[i].1, payload)->Ok_0;
            assert(map == map![name => inner]);
            assert(map.dom() =~= set![name]);
            crate::json::lemma_only_entry(map, name);
            assert(payload_fits(cases[i].1, payload));
            crate::decode::lemma_case_index_in_range(cases, name);
            if payload is Some {
                law_written_values_read_back(cases[i].1->0, *payload->0);
                let read = crate::decode::decode(cases[i].1->0, inner)->Ok_0;
                assert(same_payload(Some(Box::new(read)), payload));
            } else {
                assert(same_payload(None, payload));
            }
        },
        (KindView::Option(payload_ty), ContentView::Option(payload)) => {
            if payload is Some {
                law_written_values_read_back(*payload_ty, *payload->0);
                if value is Null {
                    lemma_written_as_null(*payload_ty, *payload->0);
                }
                let read = crate::decode::decode(*payload_ty, value)->Ok_0;
                assert(same_payload(Some(Box::new(read)), payload));
            } else {
                assert(same_payload(None, payload));
            }
        },
        (KindView::Result(ok, _), ContentView::Result(Ok(payload))) => {
            let map = value->Object_0;
            let inner = crate::encode::encode_optional(crate::encode::unboxed(ok), payload)->Ok_0;
            assert(map == map!["ok"@ => inner]);
            assert(map.dom() =~= set!["ok"@]);
            crate::json::lemma_only_entry(map, "ok"@);
            assert(payload_fits(crate::encode::unboxed(ok), payload));
            if payload is Some {
                law_written_values_read_back(*ok->0, *payload->0);
                let read = crate::decode::decode(*ok->0, inner)->Ok_0;
                assert(same_payload(Some(Box::new(read)), payload));
            } else {
                assert(same_payload(None, payload));
            }
        },
        (KindView::Flags, ContentView::Flags(names)) => {
            lemma_names(names);
        },
        _ => {},
    }
}

/// Where a list was read, each of its items was.
proof fn lemma_decoded_each(item: TypeView, values: Seq<JsonView>)
    requires
        crate::decode::decode_each(item, values) is Ok,
    ensures
        crate::decode::decode_each(item, values)->Ok_0.len() == values.len(),
        forall|i: int|
            0 <= i < values.len() ==> crate::decode::decode(item, #[trigger] values[i]) == Ok::<
                ValView,
                Seq<char>,
            >(crate::decode::decode_each(item, values)->Ok_0[i]),
    decreases values.len(),
{
    if values.len() > 0 {
        let shorter = values.drop_last();
        lemma_decoded_each(item, shorter);
        assert forall|i: int| 0 <= i < values.len() implies crate::decode::decode(
            item,
            #[trigger] values[i],
        ) == Ok::<ValView, Seq<char>>(crate::decode::decode_each(item, values)->Ok_0[i]) by {
            if i < values.len() - 1 {
                assert(shorter[i] == values[i]);
            }
        }
    }
}

/// Where a tuple was read, each of its items was.
proof fn lemma_decoded_zip(types: Seq<TypeView>, values: Seq<JsonView>)
    requires
        types.len() == values.len(),
        crate::decode::decode_zip(types, values) is Ok,
    ensures
        crate::decode::decode_zip(types, values)->Ok_0.len() == values.len(),
        forall|i: int|
            0 <= i < values.len() ==> crate::decode::decode(types[i], #[trigger] values[i]) == Ok::<
                ValView,
                Seq<char>,
            >(crate::decode::decode_zip(types, values)->Ok_0[i]),
    decreases values.len(),
{
    if values.len() > 0 {
        let shorter = values.drop_last();
        let tys = types.drop_last();
        lemma_decoded_zip(tys, shorter);
        assert forall|i: int| 0 <= i < values.len() implies crate::decode::decode(
            types[i],
            #[trigger] values[i],
        ) == Ok::<ValView, Seq<char>>(crate::decode::decode_zip(types, values)->Ok_0[i]) by {
            if i < values.len() - 1 {
                assert(shorter[i] == values[i]);
            }
        }
    }
}

/// Where the fields of a record were read, each has its name and a value of its type.
proof fn lemma_read_fields_fit(
    fields: Seq<(Seq<char>, TypeView)>,
    map: Map<Seq<char>, JsonView>,
)
    requires
        forall|i: int| 0 <= i < fields.len() ==> valid_type((#[trigger] fields[i]).1),
        crate::decode::decode_fields(fields, map) is Ok,
    ensures
        ({
            let vals = crate::decode::decode_fields(fields, map)->Ok_0.0;
            &&& vals.len() == fields.len()
            &&& forall|i: int|
                0 <= i < vals.len() ==> (#[trigger] vals[i]).0 == fields[i].0 && suits(
                    fields[i].1,
                    vals[i].1,
                )
        }),
    decreases fields, 0nat,
{
    if fields.len() > 0 {
        let shorter = fields.drop_last();
        lemma_read_fields_fit(shorter, map);
        let rest = crate::decode::decode_fields(shorter, map)->Ok_0.1;
        let last = fields[fields.len() - 1];
        if rest.contains_key(last.0) {
            assert(decreases_to!(fields => fields[fields.len() - 1]));
            assert(decreases_to!(last => last.1));
            law_read_values_fit(last.1, rest[last.0]);
        }
    }
}

/// What is read is a value of the type that it is read for; the payload of a result, which always
/// reads as a success, is of the type of either payload.
pub proof fn law_read_values_fit(ty: TypeView, value: JsonView)
    requires
        valid_type(ty),
        crate::decode::decode(ty, value) is Ok,
    ensures
        suits(ty, crate::decode::decode(ty, value)->Ok_0),
    decreases ty, 0nat,
{
    match (ty.kind, value) {
        (KindView::List(item), JsonView::Array(values)) => {
            lemma_decoded_each(*item, values);
            let vals = crate::decode::decode_each(*item, values)->Ok_0;
            assert forall|i: int| 0 <= i < vals.len() implies suits(
                *item,
                #[trigger] vals[i],
            ) by {
                assert(crate::decode::decode(*item, values[i]) is Ok);
                law_read_values_fit(*item, values[i]);
            }
        },
        (KindView::Record(fields), JsonView::Object(map)) => {
            lemma_read_fields_fit(fields, map);
        },
        (KindView::Tuple(types), JsonView::Array(values)) => {
            lemma_decoded_zip(types, values);
            let vals = crate::decode::decode_zip(types, values)->Ok_0;
            assert forall|i: int| 0 <= i < vals.len() implies suits(
                types[i],
                #[trigger] vals[i],
            ) by {
                assert(crate::decode::decode(types[i], values[i]) is Ok);
                law_read_values_fit(types[i], values[i]);
            }
        },
        (KindView::Variant(cases), JsonView::Object(map)) => {
            let (name, payload) = crate::json::only_entry(map)->0;
            let i = crate::decode::case_index(cases, name)->0;
            crate::decode::lemma_case_index_in_range(cases, name);
            assert(cases[i].0 == name);
            match cases[i].1 {
                Some(payload_ty) => {
                    assert(decreases_to!(cases => cases[i]));
                    assert(decreases_to!(cases[i] => cases[i].1));
                    law_read_values_fit(payload_ty, payload);
                    let val = crate::decode::decode(payload_ty, payload)->Ok_0;
                    assert(payload_suits(Some(payload_ty), Some(Box::new(val))));
                },
                None => {
                    assert(payload_suits(None, None));
                },
            }
        },
        (KindView::Option(payload_ty), _) => {
            if !(value is Null) {
                law_read_values_fit(*payload_ty, value);
            }
        },
        (KindView::Result(ok, err), JsonView::Object(map)) => {
            let (name, payload) = crate::json::only_entry(map)->0;
            let taken = if name == "ok"@ {
                ok
            } else {
                err
            };
            match taken {
                Some(payload_ty) => {
                    law_read_values_fit(*payload_ty, payload);
                    let val = crate::decode::decode(*payload_ty, payload)->Ok_0;
                    assert(payload_suits(
                        crate::encode::unboxed(taken),
                        Some(Box::new(val)),
                    ));
                },
                None => {
                    assert(payload_suits(crate::encode::unboxed(taken), None));
                },
            }
        },
        _ => {},
    }
}

/// Where arguments were read, each of their values was.
proof fn lemma_decoded_args(params: Seq<TypeView>, values: Seq<JsonView>)
    requires
        params.len() == values.len(),
        crate::calls::decode_args(params, values) is Ok,
    ensures
        crate::calls::decode_args(params, values)->Ok_0.len() == values.len(),
        forall|i: int|
            0 <= i < values.len() ==> crate::decode::decode(params[i], #[trigger] values[i])
                == Ok::<ValView, Seq<char>>(crate::calls::decode_args(params, values)->Ok_0[i]),
    decreases values.len(),
{
    if values.len() > 0 {
        let shorter = values.drop_last();
        let tys = params.drop_last();
        lemma_decoded_args(tys, shorter);
        assert forall|i: int| 0 <= i < values.len() implies crate::decode::decode(
            params[i],
            #[trigger] values[i],
        ) == Ok::<ValView, Seq<char>>(crate::calls::decode_args(params, values)->Ok_0[i]) by {
            if i < values.len() - 1 {
                assert(shorter[i] == values[i]);
            }
        }
    }
}

/// Whether the fields of every record that the types mention have distinct names.
pub open spec fn valid_types(types: Seq<TypeView>) -> bool {
    forall|i: int| 0 <= i < types.len() ==> valid_type(#[trigger] types[i])
}

/// Whether arguments are as many as the parameters, and each is of the type of its parameter; the
/// payload of a success may also be of the type of the payload of a failure.
pub open spec fn args_fit(params: Seq<TypeView>, args: Seq<ValView>) -> bool {
    &&& params.len() == args.len()
    &&& forall|i: int| 0 <= i < params.len() ==> suits(#[trigger] params[i], args[i])
}

/// The arguments that a body gives are as many as the parameters, each of the type of its
/// parameter; the payload of a result is of the type of either payload.
pub proof fn law_arguments_fit(params: Seq<TypeView>, body: Seq<u8>)
    requires
        valid_types(params),
        crate::calls::body_args(params, body) is Ok,
    ensures
        args_fit(params, crate::calls::body_args(params, body)->Ok_0),
{
    let value = crate::document::read_text(
        if body.len() == 0 {
            crate::calls::no_arguments()
        } else {
            body
        },
    )->Ok_0;
    let values = value->Array_0;
    lemma_decoded_args(params, values);
    assert forall|i: int| 0 <= i < params.len() implies suits(
        #[trigger] params[i],
        crate::calls::body_args(params, body)->Ok_0[i],
    ) by {
        law_read_values_fit(params[i], values[i]);
    }
}

/// A body without bytes gives what an empty JSON array gives.
pub proof fn law_empty_body(params: Seq<TypeView>)
    ensures
        crate::calls::body_args(params, Seq::empty()) == crate::calls::body_args(
            params,
            crate::calls::no_arguments(),
        ),
{
}

/// Where the first fields of a record were read from a map that has them all, each was read from
/// the value that the map has for it.
proof fn lemma_decoded_fields(
    fields: Seq<(Seq<char>, TypeView)>,
    map: Map<Seq<char>, JsonView>,
    n: int,
)
    requires
        distinct_names(fields),
        0 <= n <= fields.len(),
        forall|i: int| 0 <= i < fields.len() ==> map.contains_key((#[trigger] fields[i]).0),
        crate::decode::decode_fields(fields.take(n), map) is Ok,
    ensures
        ({
            let (read, rest) = crate::decode::decode_fields(fields.take(n), map)->Ok_0;
            &&& read.len() == n
            &&& forall|i: int| 0 <= i < n ==> (#[trigger] read[i]).0 == fields[i].0
            &&& forall|name: Seq<char>|
                #![trigger rest.contains_key(name)]
                rest.contains_key(name) <==> map.contains_key(name) && !has_name(fields, n, name)
            &&& forall|i: int|
                0 <= i < n ==> crate::decode::decode(
                    (#[trigger] fields[i]).1,
                    map[fields[i].0],
                ) == Ok::<ValView, Seq<char>>(read[i].1)
            &&& forall|i: int|
                n <= i < fields.len() ==> rest.contains_key((#[trigger] fields[i]).0)
                    && rest[fields[i].0] == map[fields[i].0]
        }),
    decreases n,
{
    if n == 0 {
        assert(fields.take(0) =~= Seq::empty());
    } else {
        assert(fields.take(n).drop_last() =~= fields.take(n - 1));
        lemma_decoded_fields(fields, map, n - 1);
    }
}


/// What is written reads as another value, or not at all, where JSON cannot tell the value or the
/// reader does not keep it apart.
pub proof fn law_other_values_do_not_read_back(ty: TypeView, val: OutputView)
    requires
        fits(ty, val),
        !reads_back(val),
    ensures
        crate::encode::encode(ty, val) is Ok,
        crate::decode::decode(ty, crate::encode::encode(ty, val)->Ok_0) matches Ok(read)
            ==> !same_value(read, val),
    decreases val,
{
    law_typed_values_are_written(ty, val);
    let value = crate::encode::encode(ty, val)->Ok_0;
    match (ty.kind, val.content) {
        (KindView::List(item), ContentView::List(outputs)) => {
            assert forall|i: int| 0 <= i < outputs.len() implies crate::encode::encode(
                *item,
                #[trigger] outputs[i],
            ) is Ok by {
                law_typed_values_are_written(*item, outputs[i]);
            }
            lemma_encode_each(*item, outputs);
            let values = crate::encode::encode_each(*item, outputs)->Ok_0;
            let i = choose|i: int| 0 <= i < outputs.len() && !reads_back(#[trigger] outputs[i]);
            law_other_values_do_not_read_back(*item, outputs[i]);
            if crate::decode::decode_each(*item, values) is Ok {
                lemma_decoded_each(*item, values);
                let vals = crate::decode::decode_each(*item, values)->Ok_0;
                assert(crate::decode::decode(*item, values[i]) == Ok::<ValView, Seq<char>>(
                    vals[i],
                ));
                assert(!same_value(vals[i], outputs[i]));
                assert(!same_values(vals, outputs));
            }
        },
        (KindView::Record(fields), ContentView::Record(outputs)) => {
            assert forall|i: int| 0 <= i < outputs.len() implies (#[trigger] outputs[i]).0
                == fields[i].0 && crate::encode::encode(fields[i].1, outputs[i].1) is Ok by {
                law_typed_values_are_written(fields[i].1, outputs[i].1);
            }
            lemma_encode_fields(fields, outputs, outputs.len() as int);
            assert(outputs.take(outputs.len() as int) =~= outputs);
            assert(fields.take(fields.len() as int) =~= fields);
            let map = crate::encode::encode_fields(
                crate::encode::field_types(fields),
                outputs,
            )->Ok_0.0;
            let i = choose|i: int|
                0 <= i < outputs.len() && !reads_back((#[trigger] outputs[i]).1);
            law_other_values_do_not_read_back(fields[i].1, outputs[i].1);
            if crate::decode::decode_fields(fields, map) is Ok {
                lemma_decoded_fields(fields, map, fields.len() as int);
                let vals = crate::decode::decode_fields(fields, map)->Ok_0.0;
                assert(crate::decode::decode(fields[i].1, map[fields[i].0]) == Ok::<
                    ValView,
                    Seq<char>,
                >(vals[i].1));
                assert(!same_value(vals[i].1, outputs[i].1));
            }
        },
        (KindView::Tuple(types), ContentView::Tuple(outputs)) => {
            assert forall|i: int| 0 <= i < outputs.len() implies crate::encode::encode(
                types[i],
                #[trigger] outputs[i],
            ) is Ok by {
                law_typed_values_are_written(types[i], outputs[i]);
            }
            lemma_encode_zip(types, outputs);
            let values = crate::encode::encode_zip(types, outputs)->Ok_0;
            let i = choose|i: int| 0 <= i < outputs.len() && !reads_back(#[trigger] outputs[i]);
            law_other_values_do_not_read_back(types[i], outputs[i]);
            if crate::decode::decode_zip(types, values) is Ok {
                lemma_decoded_zip(types, values);
                let vals = crate::decode::decode_zip(types, values)->Ok_0;
                assert(crate::decode::decode(types[i], values[i]) == Ok::<ValView, Seq<char>>(
                    vals[i],
                ));
                assert(!same_value(vals[i], outputs[i]));
                assert(!same_values(vals, outputs));
            }
        },
        (KindView::Variant(cases), ContentView::Variant(name, Some(payload))) => {
            let i = crate::decode::case_index(cases, name)->0;
            let map = value->Object_0;
            let inner = crate::encode::encode_optional(cases[i].1, Some(payload))->Ok_0;
            assert(map == map![name => inner]);
            assert(map.dom() =~= set![name]);
            crate::json::lemma_only_entry(map, name);
            assert(payload_fits(cases[i].1, Some(payload)));
            crate::decode::lemma_case_index_in_range(cases, name);
            law_other_values_do_not_read_back(cases[i].1->0, *payload);
            if crate::decode::decode(cases[i].1->0, inner) is Ok {
                let read = crate::decode::decode(cases[i].1->0, inner)->Ok_0;
                assert(!same_payload(Some(Box::new(read)), Some(payload)));
            }
        },
        (KindView::Option(payload_ty), ContentView::Option(Some(payload))) => {
            assert(!same_payload(None, Some(payload)));
            if payload.content == ContentView::Option(None) {
                assert(fits(*payload_ty, *payload));
                assert(crate::encode::encode(*payload_ty, *payload) == Ok::<JsonView, Seq<char>>(
                    JsonView::Null,
                ));
            } else {
                law_other_values_do_not_read_back(*payload_ty, *payload);
                if crate::decode::decode(*payload_ty, value) is Ok {
                    let read = crate::decode::decode(*payload_ty, value)->Ok_0;
                    assert(!same_payload(Some(Box::new(read)), Some(payload)));
                }
            }
        },
        (KindView::Result(ok, _), ContentView::Result(Ok(Some(payload)))) => {
            let map = value->Object_0;
            let inner = crate::encode::encode_optional(
                crate::encode::unboxed(ok),
                Some(payload),
            )->Ok_0;
            assert(map == map!["ok"@ => inner]);
            assert(map.dom() =~= set!["ok"@]);
            crate::json::lemma_only_entry(map, "ok"@);
            assert(payload_fits(crate::encode::unboxed(ok), Some(payload)));
            law_other_values_do_not_read_back(*ok->0, *payload);
            if crate::decode::decode(*ok->0, inner) is Ok {
                let read = crate::decode::decode(*ok->0, inner)->Ok_0;
                assert(!same_payload(Some(Box::new(read)), Some(payload)));
            }
        },
        _ => {},
    }
}

/// Whether JSON for a type is in the form that the writer gives it: integers are numbers, no field of
/// a record is left out, a result is a success, and null stands where there is no payload.
pub open spec fn written_form(ty: TypeView, value: JsonView) -> bool
    decreases ty,
{
    match ty.kind {
        KindView::S8 => value is Number,
        KindView::U8 => value is Number,
        KindView::S16 => value is Number,
        KindView::U16 => value is Number,
        KindView::S32 => value is Number,
        KindView::U32 => value is Number,
        KindView::S64 => value is Number,
        KindView::U64 => value is Number,
        KindView::List(item) => value matches JsonView::Array(values) ==> forall|i: int|
            0 <= i < values.len() ==> written_form(*item, #[trigger] values[i]),
        KindView::Record(fields) => value matches JsonView::Object(map) ==> forall|i: int|
            0 <= i < fields.len() ==> map.contains_key((#[trigger] fields[i]).0) && written_form(
                fields[i].1,
                map[fields[i].0],
            ),
        KindView::Tuple(types) => value matches JsonView::Array(values) ==> forall|i: int|
            0 <= i < types.len() && i < values.len() ==> written_form(
                #[trigger] types[i],
                values[i],
            ),
        KindView::Variant(cases) => value matches JsonView::Object(map) ==> (
        crate::json::only_entry(map) matches Some((name, payload)) ==> forall|i: int|
            0 <= i < cases.len() && crate::decode::case_index(cases, name) == Some(i) ==> match (
            #[trigger] cases[i]).1 {
                Some(payload_ty) => written_form(payload_ty, payload),
                None => payload is Null,
            }),
        KindView::Option(payload_ty) => value is Null || written_form(*payload_ty, value),
        KindView::Result(ok, _) => value matches JsonView::Object(map) ==> (
        crate::json::only_entry(map) matches Some((name, payload)) ==> name == "ok"@ && match ok {
            Some(payload_ty) => written_form(*payload_ty, payload),
            None => payload is Null,
        }),
        _ => true,
    }
}

/// A map with one entry is the map of that entry.
proof fn lemma_entry_map(map: Map<Seq<char>, JsonView>)
    requires
        crate::json::only_entry(map) is Some,
    ensures
        ({
            let (key, value) = crate::json::only_entry(map)->0;
            map == map![key => value]
        }),
{
    let (key, value) = crate::json::only_entry(map)->0;
    assert(crate::json::has_only_key(map, key));
    assert(map =~= map![key => value]);
}

/// Names that were read are written as they were.
proof fn lemma_read_names(values: Seq<JsonView>)
    requires
        crate::decode::decode_names(values) is Ok,
    ensures
        crate::encode::encode_names(crate::decode::decode_names(values)->Ok_0) == JsonView::Array(
            values,
        ),
    decreases values.len(),
{
    if values.len() > 0 {
        lemma_read_names(values.drop_last());
        let names = crate::decode::decode_names(values)->Ok_0;
        let shorter = crate::encode::encode_names(names.drop_last())->Array_0;
        assert(names.drop_last() =~= crate::decode::decode_names(values.drop_last())->Ok_0);
        assert(shorter == values.drop_last());
        let written = crate::encode::encode_names(names)->Array_0;
        assert(written.drop_last() =~= shorter);
        assert(written =~= values.drop_last().push(values.last()));
        assert(values =~= values.drop_last().push(values.last()));
    } else {
        assert(crate::encode::encode_names(Seq::empty())->Array_0 =~= values);
    }
}

/// JSON in the form that the writer gives it is written as it was, where a function returns the
/// value that it read as.
pub proof fn law_read_values_write_back(ty: TypeView, value: JsonView, output: OutputView)
    requires
        valid_type(ty),
        written_form(ty, value),
        crate::decode::decode(ty, value) is Ok,
        same_value(crate::decode::decode(ty, value)->Ok_0, output),
    ensures
        crate::encode::encode(ty, output) == Ok::<JsonView, Seq<char>>(value),
    decreases output,
{
    match (ty.kind, value) {
        (KindView::Char, JsonView::String(text)) => {
            assert(seq![text[0]] =~= text);
        },
        (KindView::List(item), JsonView::Array(values)) => {
            let outputs = output.content->List_0;
            lemma_decoded_each(*item, values);
            let vals = crate::decode::decode_each(*item, values)->Ok_0;
            assert(same_values(vals, outputs));
            assert forall|i: int| 0 <= i < outputs.len() implies crate::encode::encode(
                *item,
                #[trigger] outputs[i],
            ) == Ok::<JsonView, Seq<char>>(values[i]) by {
                assert(crate::decode::decode(*item, values[i]) is Ok);
                law_read_values_write_back(*item, values[i], outputs[i]);
            }
            lemma_encode_each(*item, outputs);
            assert(crate::encode::encode_each(*item, outputs)->Ok_0 =~= values);
        },
        (KindView::Record(fields), JsonView::Object(map)) => {
            let outputs = output.content->Record_0;
            assert(fields.take(fields.len() as int) =~= fields);
            lemma_decoded_fields(fields, map, fields.len() as int);
            let (vals, rest) = crate::decode::decode_fields(fields, map)->Ok_0;
            assert forall|i: int| 0 <= i < outputs.len() implies (#[trigger] outputs[i]).0
                == fields[i].0 && crate::encode::encode(fields[i].1, outputs[i].1) == Ok::<
                JsonView,
                Seq<char>,
            >(map[fields[i].0]) by {
                assert(vals[i].0 == fields[i].0);
                law_read_values_write_back(fields[i].1, map[fields[i].0], outputs[i].1);
            }
            lemma_encode_fields(fields, outputs, outputs.len() as int);
            assert(outputs.take(outputs.len() as int) =~= outputs);
            let written = crate::encode::encode_fields(
                crate::encode::field_types(fields),
                outputs,
            )->Ok_0.0;
            assert forall|name: Seq<char>| #[trigger]
                map.contains_key(name) implies written.contains_key(name) && written[name]
                == map[name] by {
                assert(!rest.dom().contains(name));
                assert(!rest.contains_key(name));
                let i = choose|i: int|
                    0 <= i < fields.len() && (#[trigger] fields[i]).0 == name;
                assert(fields[i].0 == name);
            }
            assert forall|name: Seq<char>| #[trigger]
                written.contains_key(name) implies map.contains_key(name) by {
                let i = choose|i: int|
                    0 <= i < fields.len() && (#[trigger] fields[i]).0 == name;
                assert(fields[i].0 == name);
            }
            assert(written =~= map);
        },
        (KindView::Tuple(types), JsonView::Array(values)) => {
            let outputs = output.content->Tuple_0;
            lemma_decoded_zip(types, values);
            let vals = crate::decode::decode_zip(types, values)->Ok_0;
            assert(same_values(vals, outputs));
            assert forall|i: int| 0 <= i < outputs.len() implies crate::encode::encode(
                types[i],
                #[trigger] outputs[i],
            ) == Ok::<JsonView, Seq<char>>(values[i]) by {
                assert(crate::decode::decode(types[i], values[i]) is Ok);
                law_read_values_write_back(types[i], values[i], outputs[i]);
            }
            lemma_encode_zip(types, outputs);
            assert(crate::encode::encode_zip(types, outputs)->Ok_0 =~= values);
        },
        (KindView::Variant(cases), JsonView::Object(map)) => {
            let (name, payload) = crate::json::only_entry(map)->0;
            lemma_entry_map(map);
            crate::decode::lemma_case_index_in_range(cases, name);
            let i = crate::decode::case_index(cases, name)->0;
            assert(cases[i].0 == name);
            let returned = output.content->Variant_1;
            match cases[i].1 {
                Some(payload_ty) => {
                    let val = crate::decode::decode(payload_ty, payload)->Ok_0;
                    assert(same_payload(Some(Box::new(val)), returned));
                    law_read_values_write_back(payload_ty, payload, *returned->0);
                },
                None => {
                    assert(same_payload(None, returned));
                },
            }
            assert(crate::encode::encode_optional(cases[i].1, returned) == Ok::<
                JsonView,
                Seq<char>,
            >(payload));
        },
        (KindView::Option(payload_ty), _) => {
            let returned = output.content->Option_0;
            if value is Null {
                assert(same_payload(None, returned));
            } else {
                let val = crate::decode::decode(*payload_ty, value)->Ok_0;
                assert(same_payload(Some(Box::new(val)), returned));
                law_read_values_write_back(*payload_ty, value, *returned->0);
            }
        },
        (KindView::Result(ok, _), JsonView::Object(map)) => {
            let (_, payload) = crate::json::only_entry(map)->0;
            lemma_entry_map(map);
            let returned = output.content->Result_0->Ok_0;
            match ok {
                Some(payload_ty) => {
                    let val = crate::decode::decode(*payload_ty, payload)->Ok_0;
                    assert(same_payload(Some(Box::new(val)), returned));
                    law_read_values_write_back(*payload_ty, payload, *returned->0);
                },
                None => {
                    assert(same_payload(None, returned));
                },
            }
            assert(crate::encode::encode_optional(crate::encode::unboxed(ok), returned) == Ok::<
                JsonView,
                Seq<char>,
            >(payload));
        },
        (KindView::Flags, JsonView::Array(values)) => {
            lemma_read_names(values);
        },
        _ => {},
    }
}

/// Results that are of the types of a function are written, each as its type writes it.
pub proof fn law_typed_results_are_written(types: Seq<TypeView>, results: Seq<OutputView>)
    requires
        types.len() == results.len(),
        forall|i: int|
            0 <= i < results.len() ==> fits(types[i], #[trigger] results[i]),
    ensures
        crate::calls::json_results(types, results) is Ok,
        ({
            let values = crate::calls::json_results(types, results)->Ok_0;
            &&& values.len() == results.len()
            &&& forall|i: int|
                0 <= i < values.len() ==> crate::encode::encode(types[i], results[i]) == Ok::<
                    JsonView,
                    Seq<char>,
                >(#[trigger] values[i])
            &&& crate::calls::results_text(types, results) == Ok::<Seq<char>, Seq<char>>(
                crate::document::pretty_text(values),
            )
        }),
{
    assert(types.take(types.len() as int) =~= types);
    assert(results.take(results.len() as int) =~= results);
    assert forall|i: int| 0 <= i < results.len() implies crate::encode::encode(
        types[i],
        #[trigger] results[i],
    ) is Ok by {
        law_typed_values_are_written(types[i], results[i]);
    }
    lemma_encode_zip(types, results);
}

/// The numeral of an integer: its digits, after a minus sign where it is negative.
pub open spec fn numeral(i: int) -> Seq<char> {
    if i < 0 {
        seq!['-'] + crate::text::decimal((-i) as nat)
    } else {
        crate::text::decimal(i as nat)
    }
}

/// The digits of an integer read as that integer, or as its opposite after a minus sign.
proof fn lemma_scan_decimal(n: nat, negative: bool, min: int, max: int)
    requires
        min <= 0 <= max,
        if negative {
            min <= -n
        } else {
            n <= max
        },
    ensures
        crate::integers::scan_digits(crate::text::decimal(n), negative, min, max) == Ok::<
            int,
            Seq<char>,
        >(
            if negative {
                -n
            } else {
                n as int
            },
        ),
    decreases n,
{
    let digits = crate::text::decimal(n);
    if n < 10 {
        assert(digits.drop_last() =~= Seq::empty());
        assert(crate::integers::scan_digits(digits.drop_last(), negative, min, max) == Ok::<
            int,
            Seq<char>,
        >(0));
    } else {
        lemma_scan_decimal(n / 10, negative, min, max);
        assert(digits.drop_last() =~= crate::text::decimal(n / 10));
    }
}

/// A numeral starts with a digit.
proof fn lemma_decimal_start(n: nat)
    ensures
        crate::text::decimal(n).len() > 0,
        crate::text::decimal(n)[0] != '+',
        crate::text::decimal(n)[0] != '-',
    decreases n,
{
    if n >= 10 {
        lemma_decimal_start(n / 10);
    }
}

/// The numeral of an integer reads, as text, as the integer does as a number, where it is in the
/// range that is asked for.
pub proof fn law_numerals_read_as_integers(i: int, min: int, max: int)
    requires
        min <= 0 <= max,
        min <= i <= max,
    ensures
        crate::integers::json_integer(JsonView::String(numeral(i)), min, max) == Ok::<
            int,
            Seq<char>,
        >(i),
        crate::integers::json_integer(JsonView::Number(NumberView::Integer(i)), min, max) == Ok::<
            int,
            Seq<char>,
        >(i),
{
    if i < 0 {
        lemma_decimal_start((-i) as nat);
        lemma_scan_decimal((-i) as nat, true, min, max);
        assert(numeral(i).skip(1) =~= crate::text::decimal((-i) as nat));
    } else {
        lemma_decimal_start(i as nat);
        lemma_scan_decimal(i as nat, false, min, max);
    }
}

/// The first fields of a record read the same from a map without an entry for a field of an option
/// type as from one with null for it; what is left differs in that entry until the field is read.
proof fn lemma_absent_option(
    fields: Seq<(Seq<char>, TypeView)>,
    map: Map<Seq<char>, JsonView>,
    k: int,
    n: int,
)
    requires
        distinct_names(fields),
        0 <= k < fields.len(),
        fields[k].1.kind is Option,
        !map.contains_key(fields[k].0),
        0 <= n <= fields.len(),
    ensures
        match (
            crate::decode::decode_fields(fields.take(n), map),
            crate::decode::decode_fields(fields.take(n), map.insert(fields[k].0, JsonView::Null)),
        ) {
            (Ok((vals, rest)), Ok((vals_with, rest_with))) => {
                &&& vals == vals_with
                &&& !rest.contains_key(fields[k].0)
                &&& rest_with == if n <= k {
                    rest.insert(fields[k].0, JsonView::Null)
                } else {
                    rest
                }
            },
            (Err(message), Err(message_with)) => message == message_with,
            _ => false,
        },
    decreases n,
{
    let name = fields[k].0;
    let with = map.insert(name, JsonView::Null);
    if n == 0 {
        assert(fields.take(0) =~= Seq::empty());
    } else {
        lemma_absent_option(fields, map, k, n - 1);
        assert(fields.take(n).drop_last() =~= fields.take(n - 1));
        if crate::decode::decode_fields(fields.take(n - 1), map) is Ok {
            let (_, rest) = crate::decode::decode_fields(fields.take(n - 1), map)->Ok_0;
            let (_, rest_with) = crate::decode::decode_fields(fields.take(n - 1), with)->Ok_0;
            if n - 1 < k {
                assert(rest_with.remove(fields[n - 1].0) =~= rest.remove(fields[n - 1].0).insert(
                    name,
                    JsonView::Null,
                ));
            } else if n - 1 == k {
                assert(rest_with.remove(name) =~= rest);
                assert(crate::decode::decode(fields[k].1, JsonView::Null) == Ok::<
                    ValView,
                    Seq<char>,
                >(ValView::Option(None)));
            }
        }
    }
}

/// A record reads the same where the entry of a field of an option type is left out as where it is
/// null.
pub proof fn law_absent_options_read_as_null(
    fields: Seq<(Seq<char>, TypeView)>,
    map: Map<Seq<char>, JsonView>,
    k: int,
    shown: Seq<char>,
)
    requires
        distinct_names(fields),
        0 <= k < fields.len(),
        fields[k].1.kind is Option,
        !map.contains_key(fields[k].0),
    ensures
        crate::decode::decode(TypeView { kind: KindView::Record(fields), shown }, JsonView::Object(map))
            == crate::decode::decode(
            TypeView { kind: KindView::Record(fields), shown },
            JsonView::Object(map.insert(fields[k].0, JsonView::Null)),
        ),
{
    lemma_absent_option(fields, map, k, fields.len() as int);
    assert(fields.take(fields.len() as int) =~= fields);
}

} // verus!
