//! What holds of the views: what a reader of a contract may take each value to be.
use crate::document::Node;
use crate::exchange::{
    Item, ItemView, Method, MethodView, Outcome, OutcomeView, Step, StepView,
};
use crate::json::{Json, JsonView, NumberView};
use crate::listing::{Export, ExportView};
use crate::values::{
    Content, ContentView, Float, FloatView, Kind, KindView, Output, Type, TypeView, Val, ValView,
};
use vstd::prelude::*;

verus! {

/// A type is of the kind that it is of, with the parts that it has, and is shown as it is.
pub proof fn law_types_are_viewed(ty: Type)
    ensures
        ty@.shown == ty.shown@,
        match ty.kind {
            Kind::Bool => ty@.kind == KindView::Bool,
            Kind::S8 => ty@.kind == KindView::S8,
            Kind::U8 => ty@.kind == KindView::U8,
            Kind::S16 => ty@.kind == KindView::S16,
            Kind::U16 => ty@.kind == KindView::U16,
            Kind::S32 => ty@.kind == KindView::S32,
            Kind::U32 => ty@.kind == KindView::U32,
            Kind::S64 => ty@.kind == KindView::S64,
            Kind::U64 => ty@.kind == KindView::U64,
            Kind::Float32 => ty@.kind == KindView::Float32,
            Kind::Float64 => ty@.kind == KindView::Float64,
            Kind::Char => ty@.kind == KindView::Char,
            Kind::String => ty@.kind == KindView::String,
            Kind::Enum => ty@.kind == KindView::Enum,
            Kind::Flags => ty@.kind == KindView::Flags,
            Kind::Own => ty@.kind == KindView::Own,
            Kind::Borrow => ty@.kind == KindView::Borrow,
            Kind::List(item) => ty@.kind == KindView::List(Box::new(item@)),
            Kind::Record(fields) => ty@.kind matches KindView::Record(viewed) && viewed.len()
                == fields@.len() && forall|i: int|
                0 <= i < viewed.len() ==> (#[trigger] viewed[i]) == (
                    fields@[i].0@,
                    fields@[i].1@,
                ),
            Kind::Tuple(types) => ty@.kind matches KindView::Tuple(viewed) && viewed.len()
                == types@.len() && forall|i: int|
                0 <= i < viewed.len() ==> (#[trigger] viewed[i]) == types@[i]@,
            Kind::Variant(cases) => ty@.kind matches KindView::Variant(viewed) && viewed.len()
                == cases@.len() && forall|i: int|
                0 <= i < viewed.len() ==> (#[trigger] viewed[i]).0 == cases@[i].0@ && (match (
                    viewed[i].1,
                    cases@[i].1,
                ) {
                    (Some(viewed), Some(ty)) => viewed == ty@,
                    (None, None) => true,
                    _ => false,
                }),
            Kind::Option(payload) => ty@.kind == KindView::Option(Box::new(payload@)),
            Kind::Result(ok, err) => ty@.kind matches KindView::Result(ok_viewed, err_viewed)
                && boxed_type(ok, ok_viewed) && boxed_type(err, err_viewed),
        },
{
    assert(ty@.kind == ty.kind@);
}

/// Whether an optional type is viewed as it is.
pub open spec fn boxed_type(ty: Option<Box<Type>>, viewed: Option<Box<TypeView>>) -> bool {
    match (ty, viewed) {
        (Some(ty), Some(viewed)) => *viewed == ty@,
        (None, None) => true,
        _ => false,
    }
}

/// Whether an optional argument is viewed as it is.
pub open spec fn boxed_val(val: Option<Box<Val>>, viewed: Option<Box<ValView>>) -> bool {
    match (val, viewed) {
        (Some(val), Some(viewed)) => *viewed == val@,
        (None, None) => true,
        _ => false,
    }
}

/// Whether an optional returned value is viewed as it is.
pub open spec fn boxed_output(
    val: Option<Box<Output>>,
    viewed: Option<Box<crate::values::OutputView>>,
) -> bool {
    match (val, viewed) {
        (Some(val), Some(viewed)) => *viewed == val@,
        (None, None) => true,
        _ => false,
    }
}

/// Whether texts are viewed as they are.
pub open spec fn texts_viewed(texts: Seq<String>, viewed: Seq<Seq<char>>) -> bool {
    &&& viewed.len() == texts.len()
    &&& forall|i: int| 0 <= i < viewed.len() ==> (#[trigger] viewed[i]) == texts[i]@
}

/// A number is the integer that it holds, or the number itself where it holds none.
pub proof fn law_numbers_are_viewed(number: serde_json::Number)
    ensures
        crate::json::number_view(number) == match crate::document::number_integer(number) {
            Some(i) => NumberView::Integer(i),
            None => NumberView::Float(number),
        },
{
}

/// An argument is what it holds.
pub proof fn law_arguments_are_viewed(val: Val)
    ensures
        match val {
            Val::Bool(x) => val@ == ValView::Bool(x),
            Val::S8(x) => val@ == ValView::S8(x),
            Val::U8(x) => val@ == ValView::U8(x),
            Val::S16(x) => val@ == ValView::S16(x),
            Val::U16(x) => val@ == ValView::U16(x),
            Val::S32(x) => val@ == ValView::S32(x),
            Val::U32(x) => val@ == ValView::U32(x),
            Val::S64(x) => val@ == ValView::S64(x),
            Val::U64(x) => val@ == ValView::U64(x),
            Val::Char(x) => val@ == ValView::Char(x),
            Val::Float32(number) => val@ == ValView::Float32(crate::json::number_view(number)),
            Val::Float64(number) => val@ == ValView::Float64(crate::json::number_view(number)),
            Val::String(text) => val@ == ValView::String(text@),
            Val::Enum(name) => val@ == ValView::Enum(name@),
            Val::List(items) => val@ matches ValView::List(viewed) && viewed.len() == items@.len()
                && forall|i: int|
                0 <= i < viewed.len() ==> (#[trigger] viewed[i]) == items@[i]@,
            Val::Tuple(items) => val@ matches ValView::Tuple(viewed) && viewed.len()
                == items@.len() && forall|i: int|
                0 <= i < viewed.len() ==> (#[trigger] viewed[i]) == items@[i]@,
            Val::Record(fields) => val@ matches ValView::Record(viewed) && viewed.len()
                == fields@.len() && forall|i: int|
                0 <= i < viewed.len() ==> (#[trigger] viewed[i]) == (
                    fields@[i].0@,
                    fields@[i].1@,
                ),
            Val::Variant(name, payload) => val@ matches ValView::Variant(viewed, inner) && viewed
                == name@ && boxed_val(payload, inner),
            Val::Option(payload) => val@ matches ValView::Option(inner) && boxed_val(
                payload,
                inner,
            ),
            Val::Result(Ok(payload)) => val@ matches ValView::Result(Ok(inner)) && boxed_val(
                payload,
                inner,
            ),
            Val::Result(Err(payload)) => val@ matches ValView::Result(Err(inner)) && boxed_val(
                payload,
                inner,
            ),
            Val::Flags(names) => val@ matches ValView::Flags(viewed) && texts_viewed(
                names@,
                viewed,
            ),
        },
{
    match val {
        Val::List(items) => {
            assert(val@ == ValView::List(crate::values::vals_view(items@)));
        },
        Val::Tuple(items) => {
            assert(val@ == ValView::Tuple(crate::values::vals_view(items@)));
        },
        Val::Record(fields) => {
            assert(val@ == ValView::Record(crate::values::field_vals_view(fields@)));
        },
        _ => {},
    }
}

/// A returned value is what it holds, and is shown as it is.
pub proof fn law_outputs_are_viewed(val: Output)
    ensures
        val@.shown == val.shown@,
        match val.content {
            Content::Bool(x) => val@.content == ContentView::Bool(x),
            Content::S8(x) => val@.content == ContentView::S8(x),
            Content::U8(x) => val@.content == ContentView::U8(x),
            Content::S16(x) => val@.content == ContentView::S16(x),
            Content::U16(x) => val@.content == ContentView::U16(x),
            Content::S32(x) => val@.content == ContentView::S32(x),
            Content::U32(x) => val@.content == ContentView::U32(x),
            Content::S64(x) => val@.content == ContentView::S64(x),
            Content::U64(x) => val@.content == ContentView::U64(x),
            Content::Char(x) => val@.content == ContentView::Char(x),
            Content::Float32(Float::Finite(number)) => val@.content == ContentView::Float32(
                FloatView::Finite(crate::json::number_view(number)),
            ),
            Content::Float32(Float::NonFinite) => val@.content == ContentView::Float32(
                FloatView::NonFinite,
            ),
            Content::Float64(Float::Finite(number)) => val@.content == ContentView::Float64(
                FloatView::Finite(crate::json::number_view(number)),
            ),
            Content::Float64(Float::NonFinite) => val@.content == ContentView::Float64(
                FloatView::NonFinite,
            ),
            Content::String(text) => val@.content == ContentView::String(text@),
            Content::Enum(name) => val@.content == ContentView::Enum(name@),
            Content::List(items) => val@.content matches ContentView::List(viewed) && viewed.len()
                == items@.len() && forall|i: int|
                0 <= i < viewed.len() ==> (#[trigger] viewed[i]) == items@[i]@,
            Content::Tuple(items) => val@.content matches ContentView::Tuple(viewed)
                && viewed.len() == items@.len() && forall|i: int|
                0 <= i < viewed.len() ==> (#[trigger] viewed[i]) == items@[i]@,
            Content::Record(fields) => val@.content matches ContentView::Record(viewed)
                && viewed.len() == fields@.len() && forall|i: int|
                0 <= i < viewed.len() ==> (#[trigger] viewed[i]) == (
                    fields@[i].0@,
                    fields@[i].1@,
                ),
            Content::Variant(name, payload) => val@.content matches ContentView::Variant(
                viewed,
                inner,
            ) && viewed == name@ && boxed_output(payload, inner),
            Content::Option(payload) => val@.content matches ContentView::Option(inner)
                && boxed_output(payload, inner),
            Content::Result(Ok(payload)) => val@.content matches ContentView::Result(Ok(inner))
                && boxed_output(payload, inner),
            Content::Result(Err(payload)) => val@.content matches ContentView::Result(Err(inner))
                && boxed_output(payload, inner),
            Content::Flags(names) => val@.content matches ContentView::Flags(viewed)
                && texts_viewed(names@, viewed),
            Content::Resource => val@.content == ContentView::Resource,
        },
{
    assert(val@.content == val.content@);
}

/// Lists of types, arguments, returned values and texts are viewed item by item.
pub proof fn law_lists_are_viewed(
    types: Seq<Type>,
    vals: Seq<Val>,
    outputs: Seq<Output>,
    texts: Seq<String>,
    items: Seq<Json>,
)
    ensures
        crate::values::types_view(types).len() == types.len(),
        forall|i: int|
            0 <= i < types.len() ==> (#[trigger] crate::values::types_view(types)[i])
                == types[i]@,
        crate::values::vals_view(vals).len() == vals.len(),
        forall|i: int|
            0 <= i < vals.len() ==> (#[trigger] crate::values::vals_view(vals)[i]) == vals[i]@,
        crate::values::outputs_view(outputs).len() == outputs.len(),
        forall|i: int|
            0 <= i < outputs.len() ==> (#[trigger] crate::values::outputs_view(outputs)[i])
                == outputs[i]@,
        texts_viewed(texts, crate::values::texts_view(texts)),
        crate::json::items_view(items).len() == items.len(),
        forall|i: int|
            0 <= i < items.len() ==> (#[trigger] crate::json::items_view(items)[i]) == items[i]@,
{
}

/// The entries of an object are a map that has their keys and no other, and for each key the value of
/// the last entry that has it.
pub proof fn law_entries_are_viewed(entries: Seq<(String, Json)>, key: Seq<char>, last: int)
    ensures
        (forall|i: int| 0 <= i < entries.len() ==> (#[trigger] entries[i]).0@ != key)
            ==> !crate::json::entries_view(entries).contains_key(key),
        0 <= last < entries.len() && entries[last].0@ == key && (forall|i: int|
            last < i < entries.len() ==> (#[trigger] entries[i]).0@ != key)
            ==> crate::json::entries_view(entries).contains_key(key)
            && crate::json::entries_view(entries)[key] == entries[last].1@,
    decreases entries.len(),
{
    if entries.len() > 0 {
        let shorter = entries.drop_last();
        law_entries_are_viewed(shorter, key, last);
        assert(entries[entries.len() - 1] == entries.last());
        if forall|i: int| 0 <= i < entries.len() ==> (#[trigger] entries[i]).0@ != key {
            assert forall|i: int| 0 <= i < shorter.len() implies (#[trigger] shorter[i]).0@
                != key by {
                assert(entries[i].0@ != key);
            }
        }
        if 0 <= last < entries.len() - 1 && (forall|i: int|
            last < i < entries.len() ==> (#[trigger] entries[i]).0@ != key) {
            assert forall|i: int| last < i < shorter.len() implies (#[trigger] shorter[i]).0@
                != key by {
                assert(entries[i].0@ != key);
            }
            assert(shorter[last] == entries[last]);
        }
    }
}

/// An object has an only entry exactly where it has one key: that key, with its value.
pub proof fn law_only_entries(map: Map<Seq<char>, JsonView>, key: Seq<char>)
    ensures
        map.dom() == set![key] ==> crate::json::only_entry(map) == Some((key, map[key])),
        crate::json::only_entry(map) matches Some((only, value)) ==> map.dom() == set![only]
            && map[only] == value,
{
    if map.dom() == set![key] {
        crate::json::lemma_only_entry(map, key);
    }
}

/// JSON is what it holds.
pub proof fn law_json_is_viewed(json: Json)
    ensures
        match json {
            Json::Null => json@ == JsonView::Null,
            Json::Bool(b) => json@ == JsonView::Bool(b),
            Json::Number(number) => json@ == JsonView::Number(crate::json::number_view(number)),
            Json::String(text) => json@ == JsonView::String(text@),
            Json::Array(items) => json@ == JsonView::Array(crate::json::items_view(items@)),
            Json::Object(entries) => json@ == JsonView::Object(
                crate::json::entries_view(entries@),
            ),
        },
{
}

/// An opened value of `serde_json` holds what its variant does.
pub proof fn law_nodes_hold_their_content(
    b: bool,
    number: serde_json::Number,
    text: String,
    values: Vec<serde_json::Value>,
    map: serde_json::Map<String, serde_json::Value>,
)
    ensures
        crate::document::node_tree(Node::Null) == JsonView::Null,
        crate::document::node_tree(Node::Bool(b)) == JsonView::Bool(b),
        crate::document::node_tree(Node::Number(number)) == JsonView::Number(
            crate::json::number_view(number),
        ),
        crate::document::node_tree(Node::String(text)) == JsonView::String(text@),
        crate::document::node_tree(Node::Object(map)) == JsonView::Object(
            crate::document::map_tree(map),
        ),
        crate::document::node_tree(Node::Array(values)) matches JsonView::Array(trees)
            && trees.len() == values@.len() && forall|i: int|
            0 <= i < trees.len() ==> (#[trigger] trees[i]) == crate::document::value_tree(
                values@[i],
            ),
{
}

/// Entries that are inserted one after another make a map that has their keys and no other, and for
/// each key the value of the last entry that has it.
pub proof fn law_insertions_make_a_map(
    entries: Seq<(String, serde_json::Value)>,
    key: Seq<char>,
    last: int,
)
    ensures
        (forall|i: int| 0 <= i < entries.len() ==> (#[trigger] entries[i]).0@ != key)
            ==> !crate::document::entry_trees(entries).contains_key(key),
        0 <= last < entries.len() && entries[last].0@ == key && (forall|i: int|
            last < i < entries.len() ==> (#[trigger] entries[i]).0@ != key)
            ==> crate::document::entry_trees(entries).contains_key(key)
            && crate::document::entry_trees(entries)[key] == crate::document::value_tree(
            entries[last].1,
        ),
    decreases entries.len(),
{
    if entries.len() > 0 {
        let shorter = entries.drop_last();
        law_insertions_make_a_map(shorter, key, last);
        assert(entries[entries.len() - 1] == entries.last());
        if forall|i: int| 0 <= i < entries.len() ==> (#[trigger] entries[i]).0@ != key {
            assert forall|i: int| 0 <= i < shorter.len() implies (#[trigger] shorter[i]).0@
                != key by {
                assert(entries[i].0@ != key);
            }
        }
        if 0 <= last < entries.len() - 1 && (forall|i: int|
            last < i < entries.len() ==> (#[trigger] entries[i]).0@ != key) {
            assert forall|i: int| last < i < shorter.len() implies (#[trigger] shorter[i]).0@
                != key by {
                assert(entries[i].0@ != key);
            }
            assert(shorter[last] == entries[last]);
        }
    }
}

/// An outcome is what came of it, or the message of the error.
pub proof fn law_outcomes_are_what_came(
    message: String,
    json: Json,
    jsons: Vec<Json>,
    val: Val,
    vals: Vec<Val>,
    names: Vec<String>,
    text: String,
    bytes: Vec<u8>,
    i: i128,
    value: serde_json::Value,
    error: serde_json::Error,
)
    ensures
        crate::document::read_outcome(Ok(value)) == Ok::<JsonView, Seq<char>>(
            crate::document::value_tree(value),
        ),
        crate::document::read_outcome(Err(error)) == Err::<JsonView, Seq<char>>(
            crate::document::error_text(error),
        ),
        crate::document::json_outcome(Ok(json)) == Ok::<JsonView, Seq<char>>(json@),
        crate::document::json_outcome(Err(message)) == Err::<JsonView, Seq<char>>(message@),
        crate::encode::values_outcome(Ok(jsons)) == Ok::<Seq<JsonView>, Seq<char>>(
            crate::json::items_view(jsons@),
        ),
        crate::encode::values_outcome(Err(message)) == Err::<Seq<JsonView>, Seq<char>>(message@),
        crate::decode::val_outcome(Ok(val)) == Ok::<ValView, Seq<char>>(val@),
        crate::decode::val_outcome(Err(message)) == Err::<ValView, Seq<char>>(message@),
        crate::decode::vals_outcome(Ok(vals)) == Ok::<Seq<ValView>, Seq<char>>(
            crate::values::vals_view(vals@),
        ),
        crate::decode::vals_outcome(Err(message)) == Err::<Seq<ValView>, Seq<char>>(message@),
        crate::decode::names_outcome(Ok(names)) == Ok::<Seq<Seq<char>>, Seq<char>>(
            crate::values::texts_view(names@),
        ),
        crate::decode::names_outcome(Err(message)) == Err::<Seq<Seq<char>>, Seq<char>>(message@),
        crate::calls::text_outcome(Ok(text)) == Ok::<Seq<char>, Seq<char>>(text@),
        crate::calls::text_outcome(Err(message)) == Err::<Seq<char>, Seq<char>>(message@),
        crate::integers::integer_outcome(Ok(i)) == Ok::<int, Seq<char>>(i as int),
        crate::integers::integer_outcome(Err(message)) == Err::<int, Seq<char>>(message@),
        crate::exchange::found_outcome(Ok(())) == Ok::<(), Seq<char>>(()),
        crate::exchange::found_outcome(Err(message)) == Err::<(), Seq<char>>(message@),
        crate::exchange::body_outcome(Ok(bytes)) == Ok::<Seq<u8>, Seq<char>>(bytes@),
        crate::exchange::body_outcome(Err(message)) == Err::<Seq<u8>, Seq<char>>(message@),
{
}

/// What is optional is viewed as it is where it is there.
pub proof fn law_options_are_viewed(ty: Type, val: Box<Output>, text: String, item: Item)
    ensures
        crate::encode::optional_type_view(Some(&ty)) == Some(ty@),
        crate::encode::optional_type_view(None) == None::<TypeView>,
        boxed_output(Some(val), crate::encode::optional_val_view(Some(val))),
        boxed_output(None, crate::encode::optional_val_view(None)),
        crate::exchange::optional_text(Some(text)) == Some(text@),
        crate::exchange::optional_text(None) == None::<Seq<char>>,
        crate::exchange::optional_item(Some(item)) == Some(item@),
        crate::exchange::optional_item(None) == None::<ItemView>,
{
}

/// A method, an item, an outcome and an export are what they hold.
pub proof fn law_answers_are_viewed(
    method: Method,
    item: Item,
    outcome: Outcome,
    export: Export,
    exports: Seq<(String, Export)>,
)
    ensures
        match method {
            Method::Get => method@ == MethodView::Get,
            Method::Post => method@ == MethodView::Post,
            Method::Other(name) => method@ == MethodView::Other(name@),
        },
        match item {
            Item::Func(params, results) => item@ == ItemView::Func(
                crate::values::types_view(params@),
                crate::values::types_view(results@),
            ),
            Item::Other(shown) => item@ == ItemView::Other(shown@),
        },
        match outcome {
            Outcome::Failed(message) => outcome@ == OutcomeView::Failed(message@),
            Outcome::Missing => outcome@ == OutcomeView::Missing,
            Outcome::Returned(results) => outcome@ == OutcomeView::Returned(
                crate::values::outputs_view(results@),
            ),
        },
        match export {
            Export::Func => export@ == ExportView::Func,
            Export::Instance(members) => export@ matches ExportView::Instance(viewed)
                && viewed.len() == members@.len() && forall|i: int|
                0 <= i < viewed.len() ==> (#[trigger] viewed[i]) == (
                    members@[i].0@,
                    members@[i].1,
                ),
            Export::Other => export@ == ExportView::Other,
        },
        crate::listing::exports_view(exports).len() == exports.len(),
        forall|i: int|
            0 <= i < exports.len() ==> (#[trigger] crate::listing::exports_view(exports)[i]) == (
                exports[i].0@,
                exports[i].1@,
            ),
{
}

/// A step asks for what it holds.
pub proof fn law_steps_are_viewed(step: Step)
    ensures
        match step {
            Step::Reply(text) => step@ == StepView::Reply(text@),
            Step::ListComponents => step@ == StepView::ListComponents,
            Step::FindComponent(lookup) => step@ == (StepView::FindComponent {
                id: lookup.id@,
                export: match lookup.export {
                    Some(export) => Some(export@),
                    None => None,
                },
                query: lookup.query,
            }),
            Step::ListExports(id) => step@ == (StepView::ListExports { id: id@ }),
            Step::FindInstance(lookup) => step@ == (StepView::FindInstance {
                id: lookup.id@,
                interface: lookup.interface@,
                func: lookup.func@,
            }),
            Step::FindFunc(lookup) => step@ == (StepView::FindFunc {
                id: lookup.id@,
                within: match lookup.interface {
                    Some(interface) => Some(interface@),
                    None => None,
                },
                func: lookup.func@,
            }),
            Step::ReadBody(signature) => step@ == (StepView::ReadBody {
                id: signature.id@,
                params: crate::values::types_view(signature.params@),
                results: crate::values::types_view(signature.results@),
            }),
            Step::Call(args, pending) => step@ == (StepView::Call {
                id: pending.id@,
                args: crate::values::vals_view(args@),
                results: crate::values::types_view(pending.results@),
            }),
        },
{
}

} // verus!
