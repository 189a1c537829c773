//! What holds of writing values, type by type.
use crate::json::{JsonView, NumberView};
use crate::values::{ContentView, FloatView, KindView, OutputView, TypeView};
use vstd::prelude::*;

verus! {

/// Whether a value is written as JSON.
pub open spec fn written_as(ty: TypeView, val: OutputView, value: JsonView) -> bool {
    crate::encode::encode(ty, val) == Ok::<JsonView, Seq<char>>(value)
}

/// Whether a value is not written, with a message.
pub open spec fn not_written(ty: TypeView, val: OutputView, message: Seq<char>) -> bool {
    crate::encode::encode(ty, val) == Err::<JsonView, Seq<char>>(message)
}

/// Whether a payload is written as JSON.
pub open spec fn payload_written_as(
    ty: Option<TypeView>,
    payload: Option<Box<OutputView>>,
    value: JsonView,
) -> bool {
    crate::encode::encode_optional(ty, payload) == Ok::<JsonView, Seq<char>>(value)
}

/// Whether a payload is not written, with a message.
pub open spec fn payload_not_written(
    ty: Option<TypeView>,
    payload: Option<Box<OutputView>>,
    message: Seq<char>,
) -> bool {
    crate::encode::encode_optional(ty, payload) == Err::<JsonView, Seq<char>>(message)
}

/// The integer that a value of an integer type is.
pub open spec fn integer_of(kind: KindView, content: ContentView) -> Option<int> {
    match (kind, content) {
        (KindView::S8, ContentView::S8(n)) => Some(n as int),
        (KindView::U8, ContentView::U8(n)) => Some(n as int),
        (KindView::S16, ContentView::S16(n)) => Some(n as int),
        (KindView::U16, ContentView::U16(n)) => Some(n as int),
        (KindView::S32, ContentView::S32(n)) => Some(n as int),
        (KindView::U32, ContentView::U32(n)) => Some(n as int),
        (KindView::S64, ContentView::S64(n)) => Some(n as int),
        (KindView::U64, ContentView::U64(n)) => Some(n as int),
        _ => None,
    }
}

/// Whether a value is of the kind that a type is of, whatever its parts are.
pub open spec fn of_kind(kind: KindView, content: ContentView) -> bool {
    match kind {
        KindView::Bool => content is Bool,
        KindView::S8 => content is S8,
        KindView::U8 => content is U8,
        KindView::S16 => content is S16,
        KindView::U16 => content is U16,
        KindView::S32 => content is S32,
        KindView::U32 => content is U32,
        KindView::S64 => content is S64,
        KindView::U64 => content is U64,
        KindView::Float32 => content is Float32,
        KindView::Float64 => content is Float64,
        KindView::Char => content is Char,
        KindView::String => content is String,
        KindView::List(_) => content is List,
        KindView::Record(_) => content is Record,
        KindView::Tuple(_) => content is Tuple,
        KindView::Variant(_) => content is Variant,
        KindView::Enum => content is Enum,
        KindView::Option(_) => content is Option,
        KindView::Result(_, _) => content is Result,
        KindView::Flags => content is Flags,
        KindView::Own => false,
        KindView::Borrow => false,
    }
}

/// Integers are written as their number, floats as theirs or as null, and bools, characters, texts
/// and the names of enums and flags as they are.
pub proof fn law_plain_values_are_written(ty: TypeView, val: OutputView)
    ensures
        integer_of(ty.kind, val.content) matches Some(i) ==> written_as(
            ty,
            val,
            JsonView::Number(NumberView::Integer(i)),
        ),
        match (ty.kind, val.content) {
            (KindView::Bool, ContentView::Bool(b)) => written_as(ty, val, JsonView::Bool(b)),
            (KindView::Float32, ContentView::Float32(FloatView::Finite(number))) => written_as(
                ty,
                val,
                JsonView::Number(number),
            ),
            (KindView::Float64, ContentView::Float64(FloatView::Finite(number))) => written_as(
                ty,
                val,
                JsonView::Number(number),
            ),
            (KindView::Float32, ContentView::Float32(FloatView::NonFinite)) => written_as(
                ty,
                val,
                JsonView::Null,
            ),
            (KindView::Float64, ContentView::Float64(FloatView::NonFinite)) => written_as(
                ty,
                val,
                JsonView::Null,
            ),
            (KindView::Char, ContentView::Char(c)) => written_as(
                ty,
                val,
                JsonView::String(seq![c]),
            ),
            (KindView::String, ContentView::String(text)) => written_as(
                ty,
                val,
                JsonView::String(text),
            ),
            (KindView::Enum, ContentView::Enum(name)) => written_as(
                ty,
                val,
                JsonView::String(name),
            ),
            (KindView::Flags, ContentView::Flags(names)) => written_as(
                ty,
                val,
                JsonView::Array(Seq::new(names.len(), |i: int| JsonView::String(names[i]))),
            ),
            _ => true,
        },
{
}

/// A value of another kind than its type is not written, with a message that shows both; no value is
/// written by a resource type.
pub proof fn law_other_values_are_not_written(ty: TypeView, val: OutputView)
    requires
        !of_kind(ty.kind, val.content),
    ensures
        ty.kind is Own || ty.kind is Borrow ==> not_written(
            ty,
            val,
            "resource types not supported"@,
        ),
        !(ty.kind is Own || ty.kind is Borrow) ==> not_written(
            ty,
            val,
            "val "@ + val.shown + " doesn't match type "@ + ty.shown,
        ),
{
}

/// A list of which each item can be written is written as the array of what the items are written
/// as, in their order.
pub proof fn law_lists_are_written(
    ty: TypeView,
    val: OutputView,
    item: TypeView,
    vals: Seq<OutputView>,
)
    requires
        ty.kind == KindView::List(Box::new(item)),
        val.content == ContentView::List(vals),
        forall|i: int| 0 <= i < vals.len() ==> crate::encode::encode(item, #[trigger] vals[i]) is Ok,
    ensures
        written_as(
            ty,
            val,
            JsonView::Array(
                Seq::new(vals.len(), |i: int| crate::encode::encode(item, vals[i])->Ok_0),
            ),
        ),
{
    crate::laws::lemma_encode_each(item, vals);
    assert(crate::encode::encode_each(item, vals)->Ok_0 =~= Seq::new(
        vals.len(),
        |i: int| crate::encode::encode(item, vals[i])->Ok_0,
    ));
}

/// A list is not written for the reason for which the first of its items is not.
pub proof fn law_lists_are_not_written(
    ty: TypeView,
    val: OutputView,
    item: TypeView,
    vals: Seq<OutputView>,
    i: int,
)
    requires
        ty.kind == KindView::List(Box::new(item)),
        val.content == ContentView::List(vals),
        0 <= i < vals.len(),
        forall|j: int| 0 <= j < i ==> crate::encode::encode(item, #[trigger] vals[j]) is Ok,
        crate::encode::encode(item, vals[i]) is Err,
    ensures
        not_written(ty, val, crate::encode::encode(item, vals[i])->Err_0),
{
    let before = vals.take(i);
    assert forall|j: int| 0 <= j < before.len() implies crate::encode::encode(
        item,
        #[trigger] before[j],
    ) is Ok by {
        assert(before[j] == vals[j]);
    }
    crate::laws::lemma_encode_each(item, before);
    assert(vals.take(i + 1).drop_last() =~= before);
    assert(vals.take(i + 1).last() == vals[i]);
    crate::encode::lemma_each_stops(item, vals, i + 1);
}

/// A tuple with a value for each of its types, each of which can be written, is written as the array
/// of what the values are written as, in their order.
pub proof fn law_tuples_are_written(
    ty: TypeView,
    val: OutputView,
    types: Seq<TypeView>,
    vals: Seq<OutputView>,
)
    requires
        ty.kind == KindView::Tuple(types),
        val.content == ContentView::Tuple(vals),
        types.len() == vals.len(),
        forall|i: int|
            0 <= i < vals.len() ==> crate::encode::encode(types[i], #[trigger] vals[i]) is Ok,
    ensures
        written_as(
            ty,
            val,
            JsonView::Array(
                Seq::new(vals.len(), |i: int| crate::encode::encode(types[i], vals[i])->Ok_0),
            ),
        ),
{
    crate::laws::lemma_encode_zip(types, vals);
    assert(crate::encode::encode_zip(types, vals)->Ok_0 =~= Seq::new(
        vals.len(),
        |i: int| crate::encode::encode(types[i], vals[i])->Ok_0,
    ));
}

/// Where values, one of each type, are not written: the reason for which the first is not.
proof fn lemma_zip_fails(types: Seq<TypeView>, vals: Seq<OutputView>, i: int)
    requires
        types.len() == vals.len(),
        0 <= i < vals.len(),
        forall|j: int| 0 <= j < i ==> crate::encode::encode(types[j], #[trigger] vals[j]) is Ok,
        crate::encode::encode(types[i], vals[i]) is Err,
    ensures
        crate::encode::encode_zip(types, vals) == Err::<Seq<JsonView>, Seq<char>>(
            crate::encode::encode(types[i], vals[i])->Err_0,
        ),
{
    let before = vals.take(i);
    let tys = types.take(i);
    assert forall|j: int| 0 <= j < before.len() implies crate::encode::encode(
        tys[j],
        #[trigger] before[j],
    ) is Ok by {
        assert(before[j] == vals[j]);
    }
    crate::laws::lemma_encode_zip(tys, before);
    assert(vals.take(i + 1).drop_last() =~= before);
    assert(types.take(i + 1).drop_last() =~= tys);
    assert(vals.take(i + 1).last() == vals[i]);
    assert(types.take(i + 1).last() == types[i]);
    crate::encode::lemma_zip_stops(types, vals, i + 1);
}

/// A tuple is not written for the reason for which the first of its values is not; nor is one of
/// another length than its type, with a message that has both lengths.
pub proof fn law_tuples_are_not_written(
    ty: TypeView,
    val: OutputView,
    types: Seq<TypeView>,
    vals: Seq<OutputView>,
    i: int,
)
    requires
        ty.kind == KindView::Tuple(types),
        val.content == ContentView::Tuple(vals),
    ensures
        types.len() != vals.len() ==> not_written(
            ty,
            val,
            "expected "@ + crate::text::decimal(types.len()) + " items; got "@
                + crate::text::decimal(vals.len()),
        ),
        types.len() == vals.len() && 0 <= i < vals.len() && (forall|j: int|
            0 <= j < i ==> crate::encode::encode(types[j], #[trigger] vals[j]) is Ok)
            && crate::encode::encode(types[i], vals[i]) is Err ==> not_written(
            ty,
            val,
            crate::encode::encode(types[i], vals[i])->Err_0,
        ),
{
    if types.len() == vals.len() && 0 <= i < vals.len() && (forall|j: int|
        0 <= j < i ==> crate::encode::encode(types[j], #[trigger] vals[j]) is Ok)
        && crate::encode::encode(types[i], vals[i]) is Err {
        lemma_zip_fails(types, vals, i);
    }
}

/// A payload is written by its type, and as null where there is neither a type nor a payload; where
/// only one of them is there, it is not written, with a message that shows both.
pub proof fn law_payloads_are_written(ty: Option<TypeView>, payload: Option<Box<OutputView>>)
    ensures
        match (ty, payload) {
            (None, None) => payload_written_as(ty, payload, JsonView::Null),
            (Some(payload_ty), Some(val)) => match crate::encode::encode(payload_ty, *val) {
                Ok(value) => payload_written_as(ty, payload, value),
                Err(message) => payload_not_written(ty, payload, message),
            },
            (Some(payload_ty), None) => payload_not_written(
                ty,
                payload,
                "type val mismatch "@ + ("Some("@ + payload_ty.shown + ")"@) + ": "@ + "None"@,
            ),
            (None, Some(val)) => payload_not_written(
                ty,
                payload,
                "type val mismatch "@ + "None"@ + ": "@ + ("Some("@ + val.shown + ")"@),
            ),
        },
{
}

/// An absent option is written as null, and a present one as its payload is.
pub proof fn law_options_are_written(ty: TypeView, val: OutputView, payload_ty: TypeView)
    requires
        ty.kind == KindView::Option(Box::new(payload_ty)),
        val.content is Option,
    ensures
        match val.content->Option_0 {
            None => written_as(ty, val, JsonView::Null),
            Some(payload) => crate::encode::encode(ty, val) == crate::encode::encode(
                payload_ty,
                *payload,
            ),
        },
{
}

/// Whether JSON is an object with this one key, which has this value.
pub open spec fn is_entry(value: JsonView, key: Seq<char>, entry: JsonView) -> bool {
    match value {
        JsonView::Object(map) => map.dom() == set![key] && map[key] == entry,
        _ => false,
    }
}

/// A value of a variant is written as an object with one key, the name of its case, whose value is
/// what its payload is written as, null where the case has none; of cases with one name, the first
/// counts.
pub proof fn law_variants_are_written(
    ty: TypeView,
    val: OutputView,
    cases: Seq<(Seq<char>, Option<TypeView>)>,
    name: Seq<char>,
    payload: Option<Box<OutputView>>,
    i: int,
)
    requires
        ty.kind == KindView::Variant(cases),
        val.content == ContentView::Variant(name, payload),
        0 <= i < cases.len(),
        cases[i].0 == name,
        forall|j: int| 0 <= j < i ==> (#[trigger] cases[j]).0 != name,
    ensures
        match crate::encode::encode_optional(cases[i].1, payload) {
            Ok(entry) => crate::encode::encode(ty, val) matches Ok(value) && is_entry(
                value,
                name,
                entry,
            ),
            Err(message) => not_written(ty, val, message),
        },
{
    crate::decode::lemma_case_index(cases, name, i);
    if crate::encode::encode_optional(cases[i].1, payload) is Ok {
        let value = crate::encode::encode(ty, val)->Ok_0;
        assert(value->Object_0.dom() =~= set![name]);
    }
}

/// A value of a variant whose case the type has not is not written, with a message that shows the
/// name of the case.
pub proof fn law_unknown_cases_are_not_written(
    ty: TypeView,
    val: OutputView,
    cases: Seq<(Seq<char>, Option<TypeView>)>,
    name: Seq<char>,
    payload: Option<Box<OutputView>>,
)
    requires
        ty.kind == KindView::Variant(cases),
        val.content == ContentView::Variant(name, payload),
        forall|j: int| 0 <= j < cases.len() ==> (#[trigger] cases[j]).0 != name,
    ensures
        not_written(ty, val, "unknown variant case "@ + crate::document::text_debug(name)),
{
    crate::decode::lemma_case_index(cases, name, cases.len() as int);
}

/// An optional type without its box.
pub open spec fn payload_type(ty: Option<Box<TypeView>>) -> Option<TypeView> {
    match ty {
        Some(ty) => Some(*ty),
        None => None,
    }
}

/// A success is written as an object with the one key "ok", and a failure as one with the one key
/// "error"; the value is what the payload is written as by its type, null where there is none.
pub proof fn law_results_are_written(
    ty: TypeView,
    val: OutputView,
    ok: Option<Box<TypeView>>,
    err: Option<Box<TypeView>>,
)
    requires
        ty.kind == KindView::Result(ok, err),
    ensures
        val.content matches ContentView::Result(Ok(payload)) ==> match crate::encode::encode_optional(
            payload_type(ok),
            payload,
        ) {
            Ok(entry) => crate::encode::encode(ty, val) matches Ok(value) && is_entry(
                value,
                "ok"@,
                entry,
            ),
            Err(message) => not_written(ty, val, message),
        },
        val.content matches ContentView::Result(Err(payload)) ==> match crate::encode::encode_optional(
            payload_type(err),
            payload,
        ) {
            Ok(entry) => crate::encode::encode(ty, val) matches Ok(value) && is_entry(
                value,
                "error"@,
                entry,
            ),
            Err(message) => not_written(ty, val, message),
        },
{
    match val.content {
        ContentView::Result(Ok(payload)) => {
            assert(payload_type(ok) == crate::encode::unboxed(ok));
            if crate::encode::encode_optional(payload_type(ok), payload) is Ok {
                let value = crate::encode::encode(ty, val)->Ok_0;
                assert(value->Object_0.dom() =~= set!["ok"@]);
            }
        },
        ContentView::Result(Err(payload)) => {
            assert(payload_type(err) == crate::encode::unboxed(err));
            if crate::encode::encode_optional(payload_type(err), payload) is Ok {
                let value = crate::encode::encode(ty, val)->Ok_0;
                assert(value->Object_0.dom() =~= set!["error"@]);
            }
        },
        _ => {},
    }
}

/// The payload of a failure is what its written form has under "error", so that failures with
/// payloads that are written differently are written differently.
pub proof fn law_failures_keep_their_payload(
    ty: TypeView,
    first: OutputView,
    second: OutputView,
    ok: Option<Box<TypeView>>,
    payload_ty: TypeView,
    first_payload: OutputView,
    second_payload: OutputView,
)
    requires
        ty.kind == KindView::Result(ok, Some(Box::new(payload_ty))),
        first.content == ContentView::Result(Err(Some(Box::new(first_payload)))),
        second.content == ContentView::Result(Err(Some(Box::new(second_payload)))),
        crate::encode::encode(payload_ty, first_payload) is Ok,
        crate::encode::encode(payload_ty, second_payload) is Ok,
    ensures
        crate::encode::encode(ty, first) is Ok,
        crate::encode::encode(ty, second) is Ok,
        is_entry(
            crate::encode::encode(ty, first)->Ok_0,
            "error"@,
            crate::encode::encode(payload_ty, first_payload)->Ok_0,
        ),
        crate::encode::encode(ty, first) == crate::encode::encode(ty, second)
            <==> crate::encode::encode(payload_ty, first_payload) == crate::encode::encode(
            payload_ty,
            second_payload,
        ),
{
    let err = Some(Box::new(payload_ty));
    law_results_are_written(ty, first, ok, err);
    law_results_are_written(ty, second, ok, err);
    law_payloads_are_written(payload_type(err), Some(Box::new(first_payload)));
    law_payloads_are_written(payload_type(err), Some(Box::new(second_payload)));
    if crate::encode::encode(payload_ty, first_payload) == crate::encode::encode(
        payload_ty,
        second_payload,
    ) {
        let a = crate::encode::encode(ty, first)->Ok_0->Object_0;
        let b = crate::encode::encode(ty, second)->Ok_0->Object_0;
        assert(a =~= b);
    }
}

/// Whether a field is the last of a record that has this name.
pub open spec fn last_named(fields: Seq<(Seq<char>, TypeView)>, name: Seq<char>, t: int) -> bool {
    &&& 0 <= t < fields.len()
    &&& fields[t].0 == name
    &&& forall|j: int| t < j < fields.len() ==> (#[trigger] fields[j]).0 != name
}

/// Whether no value before this one has its name.
pub open spec fn first_named(vals: Seq<(Seq<char>, OutputView)>, i: int) -> bool {
    forall|j: int| 0 <= j < i ==> (#[trigger] vals[j]).0 != vals[i].0
}

/// What a value in a record is written as: by the type of the field of its name, which the first
/// value of that name uses up.
pub open spec fn field_written_as(
    fields: Seq<(Seq<char>, TypeView)>,
    vals: Seq<(Seq<char>, OutputView)>,
    i: int,
) -> Result<JsonView, Seq<char>> {
    if first_named(vals, i) && exists|t: int| last_named(fields, vals[i].0, t) {
        let t = choose|t: int| last_named(fields, vals[i].0, t);
        crate::encode::encode(fields[t].1, vals[i].1)
    } else {
        Err("invalid key "@ + crate::document::text_debug(vals[i].0))
    }
}

/// The types of fields by their names.
proof fn lemma_field_types(fields: Seq<(Seq<char>, TypeView)>, name: Seq<char>)
    ensures
        crate::encode::field_types(fields).contains_key(name) <==> exists|t: int|
            last_named(fields, name, t),
        forall|t: int|
            last_named(fields, name, t) ==> crate::encode::field_types(fields)[name] == fields[t].1,
    decreases fields.len(),
{
    if fields.len() > 0 {
        let shorter = fields.drop_last();
        let last = fields.len() - 1;
        lemma_field_types(shorter, name);
        if fields[last].0 == name {
            assert(last_named(fields, name, last));
            assert forall|t: int| last_named(fields, name, t) implies t == last by {
                if t < last {
                    assert(fields[last].0 != name);
                }
            }
        } else {
            assert forall|t: int| last_named(fields, name, t) implies last_named(
                shorter,
                name,
                t,
            ) by {
                assert forall|j: int| t < j < shorter.len() implies (#[trigger] shorter[j]).0
                    != name by {
                    assert(fields[j].0 != name);
                }
            }
            assert forall|t: int| last_named(shorter, name, t) implies last_named(
                fields,
                name,
                t,
            ) by {
                assert forall|j: int| t < j < fields.len() implies (#[trigger] fields[j]).0
                    != name by {
                    if j < last {
                        assert(shorter[j].0 != name);
                    }
                }
            }
        }
    }
}

/// The JSON of the first values of a record, and the types that are left.
proof fn lemma_fields(
    fields: Seq<(Seq<char>, TypeView)>,
    vals: Seq<(Seq<char>, OutputView)>,
    n: int,
)
    requires
        0 <= n <= vals.len(),
        forall|i: int| 0 <= i < n ==> (#[trigger] field_written_as(fields, vals, i)) is Ok,
    ensures
        crate::encode::encode_fields(crate::encode::field_types(fields), vals.take(n)) is Ok,
        ({
            let (map, rest) = crate::encode::encode_fields(
                crate::encode::field_types(fields),
                vals.take(n),
            )->Ok_0;
            &&& forall|name: Seq<char>|
                #![trigger map.contains_key(name)]
                map.contains_key(name) <==> exists|i: int|
                    0 <= i < n && (#[trigger] vals[i]).0 == name
            &&& forall|i: int|
                0 <= i < n ==> map[(#[trigger] vals[i]).0] == field_written_as(
                    fields,
                    vals,
                    i,
                )->Ok_0
            &&& forall|name: Seq<char>|
                #![trigger rest.contains_key(name)]
                rest.contains_key(name) <==> crate::encode::field_types(fields).contains_key(name)
                    && (forall|j: int| 0 <= j < n ==> (#[trigger] vals[j]).0 != name)
            &&& forall|name: Seq<char>| #[trigger]
                rest.contains_key(name) ==> rest[name] == crate::encode::field_types(fields)[name]
        }),
    decreases n,
{
    let types = crate::encode::field_types(fields);
    if n == 0 {
        assert(vals.take(0) =~= Seq::empty());
    } else {
        lemma_fields(fields, vals, n - 1);
        assert(vals.take(n).drop_last() =~= vals.take(n - 1));
        assert(vals.take(n).last() == vals[n - 1]);
        let name = vals[n - 1].0;
        lemma_field_types(fields, name);
        assert(field_written_as(fields, vals, n - 1) is Ok);
        let (map0, rest0) = crate::encode::encode_fields(types, vals.take(n - 1))->Ok_0;
        assert(first_named(vals, n - 1) && exists|t: int| last_named(fields, name, t));
        assert(rest0.contains_key(name));
        let t = choose|t: int| last_named(fields, name, t);
        assert(rest0[name] == fields[t].1);
        let (map, rest) = crate::encode::encode_fields(types, vals.take(n))->Ok_0;
        assert forall|k: Seq<char>|
            #![trigger map.contains_key(k)]
            map.contains_key(k) <==> exists|i: int| 0 <= i < n && (#[trigger] vals[i]).0 == k by {
            if map.contains_key(k) {
                if k == name {
                    assert(vals[n - 1].0 == k);
                } else {
                    assert(map0.contains_key(k));
                    let i = choose|i: int| 0 <= i < n - 1 && (#[trigger] vals[i]).0 == k;
                    assert(vals[i].0 == k);
                }
            } else if exists|i: int| 0 <= i < n && (#[trigger] vals[i]).0 == k {
                let i = choose|i: int| 0 <= i < n && (#[trigger] vals[i]).0 == k;
                assert(i < n - 1);
                assert(map0.contains_key(k));
            }
        }
        assert forall|i: int| 0 <= i < n implies map[(#[trigger] vals[i]).0] == field_written_as(
            fields,
            vals,
            i,
        )->Ok_0 by {
            if i < n - 1 {
                assert(vals[i].0 != name);
            }
        }
        assert forall|k: Seq<char>|
            #![trigger rest.contains_key(k)]
            rest.contains_key(k) <==> types.contains_key(k) && (forall|j: int|
                0 <= j < n ==> (#[trigger] vals[j]).0 != k) by {
            if rest.contains_key(k) {
                assert(rest0.contains_key(k));
            } else if types.contains_key(k) && (forall|j: int|
                0 <= j < n ==> (#[trigger] vals[j]).0 != k) {
                assert(vals[n - 1].0 != k);
                assert(rest0.contains_key(k));
            }
        }
    }
}

/// A record of which each value can be written is written as the object that has, for the name of
/// each, what it is written as, and no other key.
pub proof fn law_records_are_written(
    ty: TypeView,
    val: OutputView,
    fields: Seq<(Seq<char>, TypeView)>,
    vals: Seq<(Seq<char>, OutputView)>,
)
    requires
        ty.kind == KindView::Record(fields),
        val.content == ContentView::Record(vals),
        forall|i: int| 0 <= i < vals.len() ==> (#[trigger] field_written_as(fields, vals, i)) is Ok,
    ensures
        crate::encode::encode(ty, val) matches Ok(JsonView::Object(map)) && (forall|
            name: Seq<char>,
        |
            #![trigger map.contains_key(name)]
            map.contains_key(name) <==> exists|i: int|
                0 <= i < vals.len() && (#[trigger] vals[i]).0 == name) && (forall|i: int|
            0 <= i < vals.len() ==> map[(#[trigger] vals[i]).0] == field_written_as(
                fields,
                vals,
                i,
            )->Ok_0),
{
    lemma_fields(fields, vals, vals.len() as int);
    assert(vals.take(vals.len() as int) =~= vals);
}

/// A record is not written for the reason for which the first of its values is not.
pub proof fn law_records_are_not_written(
    ty: TypeView,
    val: OutputView,
    fields: Seq<(Seq<char>, TypeView)>,
    vals: Seq<(Seq<char>, OutputView)>,
    i: int,
)
    requires
        ty.kind == KindView::Record(fields),
        val.content == ContentView::Record(vals),
        0 <= i < vals.len(),
        forall|j: int| 0 <= j < i ==> (#[trigger] field_written_as(fields, vals, j)) is Ok,
        field_written_as(fields, vals, i) is Err,
    ensures
        not_written(ty, val, field_written_as(fields, vals, i)->Err_0),
{
    let types = crate::encode::field_types(fields);
    let name = vals[i].0;
    lemma_fields(fields, vals, i);
    lemma_field_types(fields, name);
    let rest = crate::encode::encode_fields(types, vals.take(i))->Ok_0.1;
    assert(vals.take(i + 1).drop_last() =~= vals.take(i));
    assert(vals.take(i + 1).last() == vals[i]);
    if first_named(vals, i) && exists|t: int| last_named(fields, name, t) {
        let t = choose|t: int| last_named(fields, name, t);
        assert(rest.contains_key(name));
        assert(rest[name] == fields[t].1);
    } else {
        assert(!rest.contains_key(name));
    }
    crate::encode::lemma_fields_stop(types, vals, i + 1);
}

/// Where each result can be written by its type, the answer to a call is the array of what they are
/// written as, in their order; results without a type, and types without a result, do not count.
pub proof fn law_results_are_answered(
    types: Seq<TypeView>,
    results: Seq<OutputView>,
    n: int,
)
    requires
        n == types.len() && n <= results.len() || n == results.len() && n <= types.len(),
        forall|i: int|
            0 <= i < n ==> crate::encode::encode(types[i], #[trigger] results[i]) is Ok,
    ensures
        crate::calls::results_text(types, results) == Ok::<Seq<char>, Seq<char>>(
            crate::document::pretty_text(
                Seq::new(
                    n as nat,
                    |i: int| crate::encode::encode(types[i], results[i])->Ok_0,
                ),
            ),
        ),
        crate::calls::json_results(types, results) == Ok::<Seq<JsonView>, Seq<char>>(
            Seq::new(n as nat, |i: int| crate::encode::encode(types[i], results[i])->Ok_0),
        ),
{
    let tys = types.take(n);
    let vals = results.take(n);
    assert forall|i: int| 0 <= i < vals.len() implies crate::encode::encode(
        tys[i],
        #[trigger] vals[i],
    ) is Ok by {
        assert(vals[i] == results[i]);
    }
    crate::laws::lemma_encode_zip(tys, vals);
    assert(crate::encode::encode_zip(tys, vals)->Ok_0 =~= Seq::new(
        n as nat,
        |i: int| crate::encode::encode(types[i], results[i])->Ok_0,
    ));
}

/// Where a result cannot be written by its type, the answer to a call is the reason for the first
/// such result.
pub proof fn law_results_are_not_answered(
    types: Seq<TypeView>,
    results: Seq<OutputView>,
    i: int,
)
    requires
        0 <= i < types.len(),
        i < results.len(),
        forall|j: int| 0 <= j < i ==> crate::encode::encode(types[j], #[trigger] results[j]) is Ok,
        crate::encode::encode(types[i], results[i]) is Err,
    ensures
        crate::calls::results_text(types, results) == Err::<Seq<char>, Seq<char>>(
            crate::encode::encode(types[i], results[i])->Err_0,
        ),
        crate::calls::json_results(types, results) == Err::<Seq<JsonView>, Seq<char>>(
            crate::encode::encode(types[i], results[i])->Err_0,
        ),
{
    let n = if types.len() <= results.len() {
        types.len() as int
    } else {
        results.len() as int
    };
    let tys = types.take(n);
    let vals = results.take(n);
    assert forall|j: int| 0 <= j < i implies crate::encode::encode(tys[j], #[trigger] vals[j]) is Ok by {
        assert(vals[j] == results[j]);
    }
    lemma_zip_fails(tys, vals, i);
}

} // verus!
