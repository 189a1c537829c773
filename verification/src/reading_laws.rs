//! What holds of reading values, type by type.
use crate::json::{JsonView, NumberView};
use crate::values::{KindView, TypeView, ValView};
use vstd::prelude::*;

verus! {

/// Whether JSON reads as a value of a type.
pub open spec fn reads_as(ty: TypeView, value: JsonView, val: ValView) -> bool {
    crate::decode::decode(ty, value) == Ok::<ValView, Seq<char>>(val)
}

/// Whether JSON is refused for a type with a message.
pub open spec fn refused(ty: TypeView, value: JsonView, message: Seq<char>) -> bool {
    crate::decode::decode(ty, value) == Err::<ValView, Seq<char>>(message)
}

/// The least and the greatest integer of an integer type.
pub open spec fn integer_range(kind: KindView) -> Option<(int, int)> {
    match kind {
        KindView::S8 => Some((-0x80, 0x7f)),
        KindView::U8 => Some((0, 0xff)),
        KindView::S16 => Some((-0x8000, 0x7fff)),
        KindView::U16 => Some((0, 0xffff)),
        KindView::S32 => Some((-0x8000_0000, 0x7fff_ffff)),
        KindView::U32 => Some((0, 0xffff_ffff)),
        KindView::S64 => Some((-0x8000_0000_0000_0000, 0x7fff_ffff_ffff_ffff)),
        KindView::U64 => Some((0, 0xffff_ffff_ffff_ffff)),
        _ => None,
    }
}

/// Whether a value is the integer of an integer type.
pub open spec fn is_integer(kind: KindView, val: ValView, i: int) -> bool {
    match (kind, val) {
        (KindView::S8, ValView::S8(n)) => n == i,
        (KindView::U8, ValView::U8(n)) => n == i,
        (KindView::S16, ValView::S16(n)) => n == i,
        (KindView::U16, ValView::U16(n)) => n == i,
        (KindView::S32, ValView::S32(n)) => n == i,
        (KindView::U32, ValView::U32(n)) => n == i,
        (KindView::S64, ValView::S64(n)) => n == i,
        (KindView::U64, ValView::U64(n)) => n == i,
        _ => false,
    }
}

/// Whether JSON reads, for an integer type, as an integer, or is refused with a message.
pub open spec fn reads_integer(
    ty: TypeView,
    value: JsonView,
    expected: Result<int, Seq<char>>,
) -> bool {
    match (expected, crate::decode::decode(ty, value)) {
        (Ok(i), Ok(val)) => is_integer(ty.kind, val, i),
        (Err(message), Err(given)) => given == message,
        _ => false,
    }
}

/// A number that is an integer reads, for an integer type, as that integer where the type has it, and
/// is refused where it has not.
pub proof fn law_integers_are_read_from_numbers(ty: TypeView, i: int)
    requires
        integer_range(ty.kind) is Some,
    ensures
        ({
            let (min, max) = integer_range(ty.kind)->0;
            reads_integer(
                ty,
                JsonView::Number(NumberView::Integer(i)),
                if min <= i <= max {
                    Ok(i)
                } else {
                    Err("out of range integral type conversion attempted"@)
                },
            )
        }),
{
}

/// A text of digits after an optional sign reads, for an integer type, as the integer that it writes
/// where the type has it, and is refused where it has not or where something else follows the digits.
pub proof fn law_integers_are_read_from_text(
    ty: TypeView,
    sign: Option<char>,
    digits: Seq<char>,
    n: int,
)
    requires
        integer_range(ty.kind) is Some,
        sign == None::<char> || sign == Some('+') || sign == Some('-'),
        digits.len() > 0,
        sign is None ==> digits[0] != '+' && digits[0] != '-',
        0 <= n <= digits.len(),
        forall|i: int| 0 <= i < n ==> crate::text_laws::is_digit(#[trigger] digits[i]),
        n < digits.len() ==> !crate::text_laws::is_digit(digits[n]),
    ensures
        ({
            let (min, max) = integer_range(ty.kind)->0;
            reads_integer(
                ty,
                JsonView::String(
                    match sign {
                        Some(c) => seq![c] + digits,
                        None => digits,
                    },
                ),
                if sign == Some('-') && min == 0 {
                    Err("invalid digit found in string"@)
                } else {
                    crate::text_laws::digits_read_as(digits, n, sign == Some('-'), min, max)
                },
            )
        }),
{
    let (min, max) = integer_range(ty.kind)->0;
    crate::text_laws::law_numerals_are_read(sign, digits, n, min, max);
    lemma_in_range(digits, n, sign == Some('-'), min, max);
}

/// What digits read as is in the range that is asked for.
proof fn lemma_in_range(digits: Seq<char>, n: int, negative: bool, min: int, max: int)
    requires
        min <= 0 <= max,
        0 <= n <= digits.len(),
        forall|i: int| 0 <= i < n ==> crate::text_laws::is_digit(#[trigger] digits[i]),
    ensures
        crate::text_laws::digits_read_as(digits, n, negative, min, max) matches Ok(i) ==> min <= i
            <= max,
{
    crate::text_laws::lemma_positional_grows(digits, n, n);
}

/// A text without digits is refused for an integer type.
pub proof fn law_no_integers_are_read_without_digits(ty: TypeView, text: Seq<char>)
    requires
        integer_range(ty.kind) is Some,
        text.len() == 0 || text == seq!['+'] || text == seq!['-'],
    ensures
        refused(
            ty,
            JsonView::String(text),
            if text.len() == 0 {
                "cannot parse integer from empty string"@
            } else {
                "invalid digit found in string"@
            },
        ),
{
    let (min, max) = integer_range(ty.kind)->0;
    crate::text_laws::law_texts_without_digits_are_refused(text, min, max);
}

/// The numeral of an integer of a type reads, as text, as the same value as the integer does as a
/// number: that integer.
pub proof fn law_numerals_read_as_numbers(ty: TypeView, i: int)
    requires
        integer_range(ty.kind) matches Some((min, max)) && min <= i <= max,
    ensures
        crate::decode::decode(ty, JsonView::String(crate::laws::numeral(i)))
            == crate::decode::decode(ty, JsonView::Number(NumberView::Integer(i))),
        reads_integer(ty, JsonView::String(crate::laws::numeral(i)), Ok(i)),
{
    let (min, max) = integer_range(ty.kind)->0;
    crate::laws::law_numerals_read_as_integers(i, min, max);
}

/// JSON that is neither an integer nor a text is refused for an integer type, with a message that
/// shows it.
pub proof fn law_other_json_is_no_integer(ty: TypeView, value: JsonView)
    requires
        integer_range(ty.kind) is Some,
        !(value is String),
        !(value matches JsonView::Number(number) && number is Integer),
    ensures
        refused(ty, value, "couldn't parse int from "@ + crate::document::value_debug(value)),
{
}

/// Bools, floats, characters, texts and the names of enums read as they are, and from no other JSON;
/// resources are not read.
pub proof fn law_plain_values_are_read(ty: TypeView, value: JsonView)
    ensures
        ty.kind is Bool ==> match value {
            JsonView::Bool(b) => reads_as(ty, value, ValView::Bool(b)),
            _ => refused(ty, value, "expected bool"@),
        },
        ty.kind is Float32 ==> match value {
            JsonView::Number(number) => reads_as(ty, value, ValView::Float32(number)),
            _ => refused(ty, value, "expected float"@),
        },
        ty.kind is Float64 ==> match value {
            JsonView::Number(number) => reads_as(ty, value, ValView::Float64(number)),
            _ => refused(ty, value, "expected float"@),
        },
        ty.kind is Char ==> match value {
            JsonView::String(text) => if text.len() == 1 {
                reads_as(ty, value, ValView::Char(text[0]))
            } else {
                refused(ty, value, "expected single char"@)
            },
            _ => refused(ty, value, "expected string"@),
        },
        ty.kind is String ==> match value {
            JsonView::String(text) => reads_as(ty, value, ValView::String(text)),
            _ => refused(ty, value, "expected string"@),
        },
        ty.kind is Enum ==> match value {
            JsonView::String(name) => reads_as(ty, value, ValView::Enum(name)),
            _ => refused(ty, value, "expected string"@),
        },
        ty.kind is Own || ty.kind is Borrow ==> refused(
            ty,
            value,
            "resource types not supported"@,
        ),
{
}

/// Lists, tuples and flags are read only from arrays; records, variants and results only from
/// objects.
pub proof fn law_other_json_is_refused(ty: TypeView, value: JsonView)
    ensures
        (ty.kind is List || ty.kind is Tuple || ty.kind is Flags) && !(value is Array) ==> refused(
            ty,
            value,
            "expected array"@,
        ),
        (ty.kind is Record || ty.kind is Variant || ty.kind is Result) && !(value is Object)
            ==> refused(ty, value, "expected object"@),
{
}

/// A list of which each item reads reads as the list of what the items read as.
pub proof fn law_lists_are_read(ty: TypeView, item: TypeView, values: Seq<JsonView>)
    requires
        ty.kind == KindView::List(Box::new(item)),
        forall|i: int|
            0 <= i < values.len() ==> crate::decode::decode(item, #[trigger] values[i]) is Ok,
    ensures
        reads_as(
            ty,
            JsonView::Array(values),
            ValView::List(
                Seq::new(
                    values.len(),
                    |i: int| crate::decode::decode(item, values[i])->Ok_0,
                ),
            ),
        ),
{
    let vals = Seq::new(values.len(), |i: int| crate::decode::decode(item, values[i])->Ok_0);
    crate::laws::lemma_decode_each(item, values, vals);
}

/// A list is refused for the reason for which the first of its items is that does not read.
pub proof fn law_lists_are_refused(ty: TypeView, item: TypeView, values: Seq<JsonView>, i: int)
    requires
        ty.kind == KindView::List(Box::new(item)),
        0 <= i < values.len(),
        forall|j: int| 0 <= j < i ==> crate::decode::decode(item, #[trigger] values[j]) is Ok,
        crate::decode::decode(item, values[i]) is Err,
    ensures
        refused(ty, JsonView::Array(values), crate::decode::decode(item, values[i])->Err_0),
{
    let before = values.take(i);
    let vals = Seq::new(before.len(), |j: int| crate::decode::decode(item, before[j])->Ok_0);
    assert forall|j: int| 0 <= j < before.len() implies crate::decode::decode(
        item,
        #[trigger] before[j],
    ) == Ok::<ValView, Seq<char>>(vals[j]) by {
        assert(before[j] == values[j]);
    }
    crate::laws::lemma_decode_each(item, before, vals);
    assert(values.take(i + 1).drop_last() =~= before);
    assert(values.take(i + 1).last() == values[i]);
    crate::decode::lemma_each_stops(item, values, i + 1);
}

/// A tuple with an item for each of its types, each of which reads, reads as the tuple of what the
/// items read as.
pub proof fn law_tuples_are_read(ty: TypeView, types: Seq<TypeView>, values: Seq<JsonView>)
    requires
        ty.kind == KindView::Tuple(types),
        types.len() == values.len(),
        forall|i: int|
            0 <= i < values.len() ==> crate::decode::decode(types[i], #[trigger] values[i]) is Ok,
    ensures
        reads_as(
            ty,
            JsonView::Array(values),
            ValView::Tuple(
                Seq::new(
                    values.len(),
                    |i: int| crate::decode::decode(types[i], values[i])->Ok_0,
                ),
            ),
        ),
{
    let vals = Seq::new(values.len(), |i: int| crate::decode::decode(types[i], values[i])->Ok_0);
    crate::laws::lemma_decode_zip(types, values, vals);
}

/// A tuple is refused for the reason for which the first of its items is that does not read.
pub proof fn law_tuples_are_refused(
    ty: TypeView,
    types: Seq<TypeView>,
    values: Seq<JsonView>,
    i: int,
)
    requires
        ty.kind == KindView::Tuple(types),
        types.len() == values.len(),
        0 <= i < values.len(),
        forall|j: int| 0 <= j < i ==> crate::decode::decode(types[j], #[trigger] values[j]) is Ok,
        crate::decode::decode(types[i], values[i]) is Err,
    ensures
        refused(ty, JsonView::Array(values), crate::decode::decode(types[i], values[i])->Err_0),
{
    let before = values.take(i);
    let tys = types.take(i);
    let vals = Seq::new(before.len(), |j: int| crate::decode::decode(tys[j], before[j])->Ok_0);
    assert forall|j: int| 0 <= j < before.len() implies crate::decode::decode(
        tys[j],
        #[trigger] before[j],
    ) == Ok::<ValView, Seq<char>>(vals[j]) by {
        assert(before[j] == values[j]);
    }
    crate::laws::lemma_decode_zip(tys, before, vals);
    assert(values.take(i + 1).drop_last() =~= before);
    assert(types.take(i + 1).drop_last() =~= tys);
    assert(values.take(i + 1).last() == values[i]);
    assert(types.take(i + 1).last() == types[i]);
    crate::decode::lemma_zip_stops(types, values, i + 1);
}

/// An array is refused for a tuple of another length, with a message that has both lengths.
pub proof fn law_tuples_have_their_length(
    ty: TypeView,
    types: Seq<TypeView>,
    values: Seq<JsonView>,
)
    requires
        ty.kind == KindView::Tuple(types),
        types.len() != values.len(),
    ensures
        refused(
            ty,
            JsonView::Array(values),
            "expected array of "@ + crate::text::decimal(types.len()) + " items; got "@
                + crate::text::decimal(values.len()),
        ),
{
}

/// Flags are the texts of an array of texts; an array with anything else is refused.
pub proof fn law_flags_are_read(ty: TypeView, values: Seq<JsonView>)
    requires
        ty.kind is Flags,
    ensures
        (forall|i: int| 0 <= i < values.len() ==> (#[trigger] values[i]) is String) ==> reads_as(
            ty,
            JsonView::Array(values),
            ValView::Flags(Seq::new(values.len(), |i: int| values[i]->String_0)),
        ),
        (exists|i: int| 0 <= i < values.len() && !((#[trigger] values[i]) is String)) ==> refused(
            ty,
            JsonView::Array(values),
            "expected string"@,
        ),
{
    lemma_names(values);
}

/// What an array of texts reads as, for flags.
proof fn lemma_names(values: Seq<JsonView>)
    ensures
        crate::decode::decode_names(values) == (if forall|i: int|
            0 <= i < values.len() ==> (#[trigger] values[i]) is String {
            Ok(Seq::new(values.len(), |i: int| values[i]->String_0))
        } else {
            Err("expected string"@)
        }),
    decreases values.len(),
{
    if values.len() == 0 {
        assert(Seq::new(values.len(), |i: int| values[i]->String_0) =~= Seq::empty());
    } else {
        let shorter = values.drop_last();
        lemma_names(shorter);
        if forall|i: int| 0 <= i < shorter.len() ==> (#[trigger] shorter[i]) is String {
            assert forall|i: int| 0 <= i < values.len() - 1 implies (
            #[trigger] values[i]) is String by {
                assert(shorter[i] is String);
            }
            assert(values[values.len() - 1] == values.last());
            assert(Seq::new(shorter.len(), |i: int| shorter[i]->String_0).push(
                values.last()->String_0,
            ) =~= Seq::new(values.len(), |i: int| values[i]->String_0));
        } else {
            let i = choose|i: int| 0 <= i < shorter.len() && !((#[trigger] shorter[i]) is String);
            assert(!(values[i] is String));
        }
    }
}

/// An absent option reads from null; a present one from what its payload reads from, and from
/// nothing else.
pub proof fn law_options_are_read(ty: TypeView, payload_ty: TypeView, value: JsonView)
    requires
        ty.kind == KindView::Option(Box::new(payload_ty)),
    ensures
        value is Null ==> reads_as(ty, value, ValView::Option(None)),
        !(value is Null) ==> match crate::decode::decode(payload_ty, value) {
            Ok(val) => reads_as(ty, value, ValView::Option(Some(Box::new(val)))),
            Err(message) => refused(ty, value, message),
        },
{
}

/// An object whose only key is the name of a case reads as that case, with what the value reads as
/// for the payload where the case has one; of cases with one name, the first counts.
pub proof fn law_variants_are_read(
    ty: TypeView,
    cases: Seq<(Seq<char>, Option<TypeView>)>,
    map: Map<Seq<char>, JsonView>,
    name: Seq<char>,
    i: int,
)
    requires
        ty.kind == KindView::Variant(cases),
        map.dom() == set![name],
        0 <= i < cases.len(),
        cases[i].0 == name,
        forall|j: int| 0 <= j < i ==> (#[trigger] cases[j]).0 != name,
    ensures
        match cases[i].1 {
            Some(payload_ty) => match crate::decode::decode(payload_ty, map[name]) {
                Ok(val) => reads_as(
                    ty,
                    JsonView::Object(map),
                    ValView::Variant(name, Some(Box::new(val))),
                ),
                Err(message) => refused(ty, JsonView::Object(map), message),
            },
            None => reads_as(ty, JsonView::Object(map), ValView::Variant(name, None)),
        },
{
    crate::json::lemma_only_entry(map, name);
    crate::decode::lemma_case_index(cases, name, i);
}

/// An object whose only key is the name of no case is refused for a variant, with a message that has
/// the name.
pub proof fn law_unknown_cases_are_refused(
    ty: TypeView,
    cases: Seq<(Seq<char>, Option<TypeView>)>,
    map: Map<Seq<char>, JsonView>,
    name: Seq<char>,
)
    requires
        ty.kind == KindView::Variant(cases),
        map.dom() == set![name],
        forall|j: int| 0 <= j < cases.len() ==> (#[trigger] cases[j]).0 != name,
    ensures
        refused(ty, JsonView::Object(map), "unknown variant case "@ + name),
{
    crate::json::lemma_only_entry(map, name);
    crate::decode::lemma_case_index(cases, name, cases.len() as int);
}

/// An object that has not exactly one key is refused for a variant and for a result.
pub proof fn law_objects_need_one_key(ty: TypeView, map: Map<Seq<char>, JsonView>)
    requires
        forall|name: Seq<char>| map.dom() != #[trigger] set![name],
    ensures
        ty.kind is Variant ==> refused(
            ty,
            JsonView::Object(map),
            "expected object with exactly one field"@,
        ),
        ty.kind is Result ==> refused(
            ty,
            JsonView::Object(map),
            "expected object with exactly one field (ok or error)"@,
        ),
{
    assert forall|name: Seq<char>| !(#[trigger] crate::json::has_only_key(map, name)) by {
        assert(map.dom() != set![name]);
    }
}

/// An object whose only key is "ok" or "error" reads, for a result, as a success, with what the value
/// reads as for the payload under that key where there is one; any other key is refused, with a
/// message that shows it.
pub proof fn law_results_are_read(
    ty: TypeView,
    ok: Option<Box<TypeView>>,
    err: Option<Box<TypeView>>,
    map: Map<Seq<char>, JsonView>,
    name: Seq<char>,
)
    requires
        ty.kind == KindView::Result(ok, err),
        map.dom() == set![name],
    ensures
        name == "ok"@ ==> match ok {
            Some(payload_ty) => match crate::decode::decode(*payload_ty, map[name]) {
                Ok(val) => reads_as(
                    ty,
                    JsonView::Object(map),
                    ValView::Result(Ok(Some(Box::new(val)))),
                ),
                Err(message) => refused(ty, JsonView::Object(map), message),
            },
            None => reads_as(ty, JsonView::Object(map), ValView::Result(Ok(None))),
        },
        name == "error"@ ==> match err {
            Some(payload_ty) => match crate::decode::decode(*payload_ty, map[name]) {
                Ok(val) => reads_as(
                    ty,
                    JsonView::Object(map),
                    ValView::Result(Ok(Some(Box::new(val)))),
                ),
                Err(message) => refused(ty, JsonView::Object(map), message),
            },
            None => reads_as(ty, JsonView::Object(map), ValView::Result(Ok(None))),
        },
        name != "ok"@ && name != "error"@ ==> refused(
            ty,
            JsonView::Object(map),
            "expected ok or error; got "@ + crate::document::text_debug(name),
        ),
{
    crate::json::lemma_only_entry(map, name);
    reveal_strlit("ok");
    reveal_strlit("error");
    assert("ok"@.len() != "error"@.len());
}

/// Whether a field is read from an entry: the entry that has its name, which only the first field of
/// that name takes.
pub open spec fn takes_entry(
    fields: Seq<(Seq<char>, TypeView)>,
    map: Map<Seq<char>, JsonView>,
    i: int,
) -> bool {
    &&& map.contains_key(fields[i].0)
    &&& forall|j: int| 0 <= j < i ==> (#[trigger] fields[j]).0 != fields[i].0
}

/// What a field of a record reads as: what its entry does; without an entry, an absent option, or
/// nothing if it is of another type.
pub open spec fn field_reads_as(
    fields: Seq<(Seq<char>, TypeView)>,
    map: Map<Seq<char>, JsonView>,
    i: int,
) -> Result<ValView, Seq<char>> {
    if takes_entry(fields, map, i) {
        crate::decode::decode(fields[i].1, map[fields[i].0])
    } else if fields[i].1.kind is Option {
        Ok(ValView::Option(None))
    } else {
        Err("missing record field '"@ + fields[i].0 + "'"@)
    }
}

/// Whether entries are those of an object that are for none of the first fields of a record.
pub open spec fn left_over(
    fields: Seq<(Seq<char>, TypeView)>,
    n: int,
    map: Map<Seq<char>, JsonView>,
    rest: Map<Seq<char>, JsonView>,
) -> bool {
    &&& forall|name: Seq<char>|
        #![trigger rest.contains_key(name)]
        rest.contains_key(name) <==> map.contains_key(name) && (forall|j: int|
            0 <= j < n ==> (#[trigger] fields[j]).0 != name)
    &&& forall|name: Seq<char>| #[trigger] rest.contains_key(name) ==> rest[name] == map[name]
}

/// What the first fields of a record read as, and what is left of the object.
proof fn lemma_fields(
    fields: Seq<(Seq<char>, TypeView)>,
    map: Map<Seq<char>, JsonView>,
    n: int,
)
    requires
        0 <= n <= fields.len(),
        forall|i: int| 0 <= i < n ==> (#[trigger] field_reads_as(fields, map, i)) is Ok,
    ensures
        crate::decode::decode_fields(fields.take(n), map) is Ok,
        ({
            let (vals, rest) = crate::decode::decode_fields(fields.take(n), map)->Ok_0;
            &&& vals == Seq::new(
                n as nat,
                |i: int| (fields[i].0, field_reads_as(fields, map, i)->Ok_0),
            )
            &&& left_over(fields, n, map, rest)
        }),
    decreases n,
{
    if n == 0 {
        assert(fields.take(0) =~= Seq::empty());
        assert(Seq::new(
            0nat,
            |i: int| (fields[i].0, field_reads_as(fields, map, i)->Ok_0),
        ) =~= Seq::empty());
    } else {
        lemma_fields(fields, map, n - 1);
        assert(fields.take(n).drop_last() =~= fields.take(n - 1));
        assert(fields.take(n).last() == fields[n - 1]);
        let (vals0, rest0) = crate::decode::decode_fields(fields.take(n - 1), map)->Ok_0;
        let name = fields[n - 1].0;
        assert(rest0.contains_key(name) <==> takes_entry(fields, map, n - 1));
        assert(field_reads_as(fields, map, n - 1) is Ok);
        let (vals, rest) = crate::decode::decode_fields(fields.take(n), map)->Ok_0;
        assert(vals =~= Seq::new(
            n as nat,
            |i: int| (fields[i].0, field_reads_as(fields, map, i)->Ok_0),
        ));
        assert forall|k: Seq<char>|
            #![trigger rest.contains_key(k)]
            rest.contains_key(k) <==> map.contains_key(k) && (forall|j: int|
                0 <= j < n ==> (#[trigger] fields[j]).0 != k) by {
            if rest.contains_key(k) {
                assert(rest0.contains_key(k));
                assert(k != name);
            } else if map.contains_key(k) && (forall|j: int|
                0 <= j < n ==> (#[trigger] fields[j]).0 != k) {
                assert(fields[n - 1].0 != k);
                assert(rest0.contains_key(k));
            }
        }
    }
}

/// An object of which each field of a record reads, and which has no other entry, reads as the record
/// of what the fields read as, in their order; one with other entries is refused, with a message that
/// shows them.
pub proof fn law_records_are_read(
    ty: TypeView,
    fields: Seq<(Seq<char>, TypeView)>,
    map: Map<Seq<char>, JsonView>,
    rest: Map<Seq<char>, JsonView>,
)
    requires
        ty.kind == KindView::Record(fields),
        forall|i: int| 0 <= i < fields.len() ==> (#[trigger] field_reads_as(fields, map, i)) is Ok,
        left_over(fields, fields.len() as int, map, rest),
    ensures
        rest.dom() == Set::<Seq<char>>::empty() ==> reads_as(
            ty,
            JsonView::Object(map),
            ValView::Record(
                Seq::new(
                    fields.len(),
                    |i: int| (fields[i].0, field_reads_as(fields, map, i)->Ok_0),
                ),
            ),
        ),
        rest.dom() != Set::<Seq<char>>::empty() ==> refused(
            ty,
            JsonView::Object(map),
            "unexpected record field(s): "@ + crate::document::map_debug(rest),
        ),
{
    lemma_fields(fields, map, fields.len() as int);
    assert(fields.take(fields.len() as int) =~= fields);
    let left = crate::decode::decode_fields(fields, map)->Ok_0.1;
    assert forall|k: Seq<char>| left.dom().contains(k) == rest.dom().contains(k) by {
        assert(left.contains_key(k) == rest.contains_key(k));
    }
    assert(left =~= rest);
}

/// An object is refused for a record for the reason for which the first of its fields is that does
/// not read.
pub proof fn law_records_are_refused(
    ty: TypeView,
    fields: Seq<(Seq<char>, TypeView)>,
    map: Map<Seq<char>, JsonView>,
    i: int,
)
    requires
        ty.kind == KindView::Record(fields),
        0 <= i < fields.len(),
        forall|j: int| 0 <= j < i ==> (#[trigger] field_reads_as(fields, map, j)) is Ok,
        field_reads_as(fields, map, i) is Err,
    ensures
        refused(ty, JsonView::Object(map), field_reads_as(fields, map, i)->Err_0),
{
    lemma_fields(fields, map, i);
    let rest = crate::decode::decode_fields(fields.take(i), map)->Ok_0.1;
    assert(fields.take(i + 1).drop_last() =~= fields.take(i));
    assert(fields.take(i + 1).last() == fields[i]);
    assert(rest.contains_key(fields[i].0) <==> takes_entry(fields, map, i));
    crate::decode::lemma_fields_stop(fields, map, i + 1);
}

/// What the bytes of a body are read as: those of an empty array where there are none.
pub open spec fn body_reads_as(body: Seq<u8>) -> Result<JsonView, Seq<char>> {
    if body.len() == 0 {
        crate::document::read_text(seq![0x5bu8, 0x5du8])
    } else {
        crate::document::read_text(body)
    }
}

/// A body that is an array with an item for each parameter, each of which reads, gives what the items
/// read as, in their order; a body without bytes gives what an empty array gives.
pub proof fn law_bodies_give_arguments(
    params: Seq<TypeView>,
    body: Seq<u8>,
    values: Seq<JsonView>,
)
    requires
        body_reads_as(body) == Ok::<JsonView, Seq<char>>(JsonView::Array(values)),
        values.len() == params.len(),
        forall|i: int|
            0 <= i < values.len() ==> crate::decode::decode(params[i], #[trigger] values[i]) is Ok,
    ensures
        crate::calls::body_args(params, body) == Ok::<Seq<ValView>, Seq<char>>(
            Seq::new(values.len(), |i: int| crate::decode::decode(params[i], values[i])->Ok_0),
        ),
{
    lemma_args(params, values);
}

/// The arguments that items read as.
proof fn lemma_args(params: Seq<TypeView>, values: Seq<JsonView>)
    requires
        values.len() == params.len(),
        forall|i: int|
            0 <= i < values.len() ==> crate::decode::decode(params[i], #[trigger] values[i]) is Ok,
    ensures
        crate::calls::decode_args(params, values) == Ok::<Seq<ValView>, Seq<char>>(
            Seq::new(values.len(), |i: int| crate::decode::decode(params[i], values[i])->Ok_0),
        ),
    decreases values.len(),
{
    let args = Seq::new(values.len(), |i: int| crate::decode::decode(params[i], values[i])->Ok_0);
    if values.len() == 0 {
        assert(args =~= Seq::empty());
    } else {
        let shorter = values.drop_last();
        let tys = params.drop_last();
        assert forall|i: int| 0 <= i < shorter.len() implies crate::decode::decode(
            tys[i],
            #[trigger] shorter[i],
        ) is Ok by {
            assert(shorter[i] == values[i]);
        }
        lemma_args(tys, shorter);
        assert(values[values.len() - 1] == values.last());
        assert(args =~= Seq::new(
            shorter.len(),
            |i: int| crate::decode::decode(tys[i], shorter[i])->Ok_0,
        ).push(crate::decode::decode(params.last(), values.last())->Ok_0));
    }
}

/// A body of which an item does not read is refused, with a message that has the position of the
/// first such item, counted from one.
pub proof fn law_bodies_name_the_first_bad_argument(
    params: Seq<TypeView>,
    body: Seq<u8>,
    values: Seq<JsonView>,
    i: int,
)
    requires
        body_reads_as(body) == Ok::<JsonView, Seq<char>>(JsonView::Array(values)),
        values.len() == params.len(),
        0 <= i < values.len(),
        forall|j: int| 0 <= j < i ==> crate::decode::decode(params[j], #[trigger] values[j]) is Ok,
        crate::decode::decode(params[i], values[i]) is Err,
    ensures
        crate::calls::body_args(params, body) == Err::<Seq<ValView>, Seq<char>>(
            "error parsing argument "@ + crate::text::decimal((i + 1) as nat),
        ),
{
    let before = values.take(i);
    let tys = params.take(i);
    assert forall|j: int| 0 <= j < before.len() implies crate::decode::decode(
        tys[j],
        #[trigger] before[j],
    ) is Ok by {
        assert(before[j] == values[j]);
    }
    lemma_args(tys, before);
    assert(values.take(i + 1).drop_last() =~= before);
    assert(params.take(i + 1).drop_last() =~= tys);
    assert(values.take(i + 1).last() == values[i]);
    assert(params.take(i + 1).last() == params[i]);
    crate::calls::lemma_args_stop(params, values, i + 1);
}

/// A body that is no JSON, no array, or an array of another length than the parameters, is refused
/// for that reason.
pub proof fn law_other_bodies_are_refused(params: Seq<TypeView>, body: Seq<u8>)
    ensures
        match body_reads_as(body) {
            Err(message) => crate::calls::body_args(params, body) == Err::<
                Seq<ValView>,
                Seq<char>,
            >(message),
            Ok(JsonView::Array(values)) => values.len() != params.len() ==> crate::calls::body_args(
                params,
                body,
            ) == Err::<Seq<ValView>, Seq<char>>(
                "expected "@ + crate::text::decimal(params.len()) + " args; got "@
                    + crate::text::decimal(values.len()),
            ),
            Ok(_) => crate::calls::body_args(params, body) == Err::<Seq<ValView>, Seq<char>>(
                "request body must be a JSON array"@,
            ),
        },
{
}

} // verus!
