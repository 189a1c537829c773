//! JSON text: what stands between the library's values and those of `serde_json`.
use crate::json::{Json, JsonView};
use vstd::prelude::*;

verus! {

/// `serde_json::Number`, a number as `serde_json` holds it.
#[verifier::external_type_specification]
#[verifier::external_body]
pub struct ExNumber(serde_json::Number);

/// `serde_json::Value`, a value as `serde_json` holds it.
#[verifier::external_type_specification]
#[verifier::external_body]
pub struct ExValue(serde_json::Value);

/// `serde_json::Map`, the entries of an object as `serde_json` holds them.
#[verifier::external_type_specification]
#[verifier::external_body]
#[verifier::reject_recursive_types(K)]
#[verifier::reject_recursive_types(V)]
pub struct ExMap<K, V>(serde_json::Map<K, V>);

/// `serde_json::Error`, why a text was not read or a value not written.
#[verifier::external_type_specification]
#[verifier::external_body]
pub struct ExError(serde_json::Error);

/// The integer that a number holds, if it is held as an integer.
pub uninterp spec fn number_integer(number: serde_json::Number) -> Option<int>;

/// What a value holds.
pub uninterp spec fn value_tree(value: serde_json::Value) -> JsonView;

/// What a map holds.
pub uninterp spec fn map_tree(map: serde_json::Map<String, serde_json::Value>) -> Map<
    Seq<char>,
    JsonView,
>;

/// The message of an error.
pub uninterp spec fn error_text(error: serde_json::Error) -> Seq<char>;

/// What `serde_json::from_slice` makes of a body: the value that it writes, or the message of the
/// error.
pub uninterp spec fn read_text(body: Seq<u8>) -> Result<JsonView, Seq<char>>;

/// The text that `serde_json::to_string_pretty` makes of a list of values.
pub uninterp spec fn pretty_text(values: Seq<JsonView>) -> Seq<char>;

/// What the `Debug` of `serde_json::Value` writes.
pub uninterp spec fn value_debug(value: JsonView) -> Seq<char>;

/// What the `Debug` of `serde_json::Map` writes.
pub uninterp spec fn map_debug(map: Map<Seq<char>, JsonView>) -> Seq<char>;

/// What the `Debug` of a text writes: the text in quotes, with escapes.
pub uninterp spec fn text_debug(text: Seq<char>) -> Seq<char>;

/// A value of `serde_json`, opened to its first level.
pub enum Node {
    Null,
    Bool(bool),
    Number(serde_json::Number),
    String(String),
    Array(Vec<serde_json::Value>),
    Object(serde_json::Map<String, serde_json::Value>),
}

/// What each of the values holds.
pub open spec fn value_trees(values: Seq<serde_json::Value>) -> Seq<JsonView> {
    Seq::new(values.len(), |i: int| value_tree(values[i]))
}

/// The map that a series of insertions makes.
pub open spec fn entry_trees(entries: Seq<(String, serde_json::Value)>) -> Map<Seq<char>, JsonView>
    decreases entries.len(),
{
    if entries.len() == 0 {
        Map::empty()
    } else {
        entry_trees(entries.drop_last()).insert(entries.last().0@, value_tree(entries.last().1))
    }
}

/// What an opened value holds.
pub open spec fn node_tree(node: Node) -> JsonView {
    match node {
        Node::Null => JsonView::Null,
        Node::Bool(b) => JsonView::Bool(b),
        Node::Number(n) => JsonView::Number(crate::json::number_view(n)),
        Node::String(s) => JsonView::String(s@),
        Node::Array(values) => JsonView::Array(value_trees(values@)),
        Node::Object(map) => JsonView::Object(map_tree(map)),
    }
}

/// What reading gave: what the value holds, or the message of the error.
pub open spec fn read_outcome(result: Result<serde_json::Value, serde_json::Error>) -> Result<
    JsonView,
    Seq<char>,
> {
    match result {
        Ok(value) => Ok(value_tree(value)),
        Err(error) => Err(error_text(error)),
    }
}

/// Tells the variants of `serde_json::Value` apart: the value holds what its variant holds.
#[verifier::external_body]
fn open_value(value: serde_json::Value) -> (node: Node)
    ensures
        node_tree(node) == value_tree(value),
{
    match value {
        serde_json::Value::Null => Node::Null,
        serde_json::Value::Bool(b) => Node::Bool(b),
        serde_json::Value::Number(n) => Node::Number(n),
        serde_json::Value::String(s) => Node::String(s),
        serde_json::Value::Array(values) => Node::Array(values),
        serde_json::Value::Object(map) => Node::Object(map),
    }
}

/// Makes a `serde_json::Value` of one of its variants: the value holds what its variant holds.
#[verifier::external_body]
fn close_value(node: Node) -> (value: serde_json::Value)
    ensures
        value_tree(value) == node_tree(node),
{
    match node {
        Node::Null => serde_json::Value::Null,
        Node::Bool(b) => serde_json::Value::Bool(b),
        Node::Number(n) => serde_json::Value::Number(n),
        Node::String(s) => serde_json::Value::String(s),
        Node::Array(values) => serde_json::Value::Array(values),
        Node::Object(map) => serde_json::Value::Object(map),
    }
}

/// `serde_json::Map::into_iter` hands out the entries of a map: each of its keys once, with the
/// value that the map has for it.
#[verifier::external_body]
fn map_entries(map: serde_json::Map<String, serde_json::Value>) -> (entries: Vec<
    (String, serde_json::Value),
>)
    ensures
        entry_trees(entries@) == map_tree(map),
        forall|i: int, j: int| 0 <= i < j < entries@.len() ==> entries@[i].0@ != entries@[j].0@,
{
    map.into_iter().collect()
}

/// `serde_json::Map::new` makes a map without entries.
#[verifier::external_body]
fn map_new() -> (map: serde_json::Map<String, serde_json::Value>)
    ensures
        map_tree(map).dom() == Set::<Seq<char>>::empty(),
{
    serde_json::Map::new()
}

/// `serde_json::Map::insert` sets the value of a key, whether the map had the key or not.
#[verifier::external_body]
fn map_insert(
    map: &mut serde_json::Map<String, serde_json::Value>,
    key: String,
    value: serde_json::Value,
)
    ensures
        map_tree(*final(map)) == map_tree(*old(map)).insert(key@, value_tree(value)),
{
    map.insert(key, value);
}

/// `serde_json::Number::as_i128` gives the integer that a number holds as an integer, and nothing
/// for any other number.
#[verifier::external_body]
pub(crate) fn integer_of_number(number: &serde_json::Number) -> (integer: Option<i128>)
    ensures
        match integer {
            Some(i) => number_integer(*number) == Some(i as int) && i64::MIN <= i <= u64::MAX,
            None => number_integer(*number) is None,
        },
{
    number.as_i128()
}

/// `serde_json::Number::from_i128` makes a number that holds an integer, for those that fit in an
/// `i64` or a `u64`.
#[verifier::external_body]
pub(crate) fn number_of_integer(integer: i128) -> (number: Option<serde_json::Number>)
    ensures
        number is Some <==> i64::MIN <= integer <= u64::MAX,
        number matches Some(n) ==> number_integer(n) == Some(integer as int),
{
    serde_json::Number::from_i128(integer)
}

/// `serde_json::from_slice` reads a JSON value from bytes: what the value holds, or what the error
/// says, depends only on the bytes. Which bytes write which value is not stated: the result has a
/// name.
#[verifier::external_body]
fn value_from_slice(body: &[u8]) -> (result: Result<serde_json::Value, serde_json::Error>)
    ensures
        read_outcome(result) == read_text(body@),
{
    serde_json::from_slice(body)
}

/// `serde_json::to_string_pretty` writes a list of values, which never fails: the keys of objects are
/// texts, and every number that `serde_json` holds is finite. The text depends only on what the
/// values hold; its layout is not stated: it has a name.
#[verifier::external_body]
fn values_to_string_pretty(values: &Vec<serde_json::Value>) -> (result: Result<
    String,
    serde_json::Error,
>)
    ensures
        result is Ok,
        result matches Ok(text) ==> text@ == pretty_text(value_trees(values@)),
{
    serde_json::to_string_pretty(values)
}

/// `ToString` of `serde_json::Error` gives the message of an error. Which message is not stated: it
/// has a name.
#[verifier::external_body]
fn error_message(error: serde_json::Error) -> (text: String)
    ensures
        text@ == error_text(error),
{
    error.to_string()
}

/// The `Debug` of `serde_json::Value` writes a text that depends only on what the value holds. The
/// layout of the text is not stated: it has a name.
#[verifier::external_body]
fn debug_value(value: &serde_json::Value) -> (text: String)
    ensures
        text@ == value_debug(value_tree(*value)),
{
    format!("{value:?}")
}

/// The `Debug` of `serde_json::Map` writes a text that depends only on what the map holds, not on the
/// order of the insertions. The layout of the text is not stated: it has a name.
#[verifier::external_body]
fn debug_map(map: &serde_json::Map<String, serde_json::Value>) -> (text: String)
    ensures
        text@ == map_debug(map_tree(*map)),
{
    format!("{map:?}")
}

/// The `Debug` of `str` writes a text that depends only on the characters. Which of them are escaped
/// is not stated: the text has a name.
#[verifier::external_body]
pub(crate) fn debug_text(text: &str) -> (quoted: String)
    ensures
        quoted@ == text_debug(text@),
{
    format!("{text:?}")
}

/// Entries with distinct keys make a map that has the value of each.
proof fn lemma_distinct_entries(entries: Seq<(String, serde_json::Value)>)
    requires
        forall|i: int, j: int| 0 <= i < j < entries.len() ==> entries[i].0@ != entries[j].0@,
    ensures
        entry_trees(entries).dom().finite(),
        forall|i: int|
            0 <= i < entries.len() ==> entry_trees(entries).dom().contains(
                (#[trigger] entries[i]).0@,
            ) && entry_trees(entries)[entries[i].0@] == value_tree(entries[i].1),
    decreases entries.len(),
{
    if entries.len() > 0 {
        let shorter = entries.drop_last();
        lemma_distinct_entries(shorter);
        assert forall|i: int| 0 <= i < entries.len() implies entry_trees(entries).dom().contains(
            (#[trigger] entries[i]).0@,
        ) && entry_trees(entries)[entries[i].0@] == value_tree(entries[i].1) by {
            if i < entries.len() - 1 {
                assert(shorter[i] == entries[i]);
            }
        }
    }
}

/// The library's copy of a value.
fn json_from_value(value: serde_json::Value) -> (json: Json)
    ensures
        json@ == value_tree(value),
    decreases value_tree(value),
{
    match open_value(value) {
        Node::Null => Json::Null,
        Node::Bool(b) => Json::Bool(b),
        Node::Number(n) => Json::Number(n),
        Node::String(s) => Json::String(s),
        Node::Array(values) => {
            let ghost all = values@;
            let mut items: Vec<Json> = Vec::new();
            for item in iter: values
                invariant
                    iter.seq() == all,
                    value_tree(value) == JsonView::Array(value_trees(all)),
                    crate::json::items_view(items@) == value_trees(all).take(iter.index()),
            {
                proof {
                    let k = iter.index();
                    assert(decreases_to!(value_tree(value) => value_tree(value)->Array_0));
                    assert(decreases_to!(value_trees(all) => value_trees(all)[k]));
                    assert(value_trees(all).take(k + 1) =~= value_trees(all).take(k).push(
                        value_trees(all)[k],
                    ));
                }
                let ghost before = items@;
                let copy = json_from_value(item);
                items.push(copy);
                proof {
                    crate::json::lemma_items_push(before, copy);
                }
            }
            assert(value_trees(all).take(all.len() as int) =~= value_trees(all));
            Json::Array(items)
        },
        Node::Object(map) => {
            let values = map_entries(map);
            let ghost all = values@;
            proof {
                lemma_distinct_entries(all);
                assert(all.take(0) =~= Seq::empty());
            }
            let mut entries: Vec<(String, Json)> = Vec::new();
            for entry in iter: values
                invariant
                    iter.seq() == all,
                    value_tree(value) == JsonView::Object(entry_trees(all)),
                    entry_trees(all).dom().finite(),
                    forall|i: int|
                        0 <= i < all.len() ==> entry_trees(all).dom().contains(
                            (#[trigger] all[i]).0@,
                        ) && entry_trees(all)[all[i].0@] == value_tree(all[i].1),
                    crate::json::entries_view(entries@) == entry_trees(all.take(iter.index())),
            {
                proof {
                    let k = iter.index();
                    assert(decreases_to!(value_tree(value) => value_tree(value)->Object_0));
                    assert(decreases_to!(entry_trees(all) => entry_trees(all)[entry.0@]));
                    assert(all.take(k + 1).drop_last() =~= all.take(k));
                }
                let ghost before = entries@;
                let (key, item) = entry;
                let copy = json_from_value(item);
                let ghost last = (key, copy);
                entries.push((key, copy));
                proof {
                    crate::json::lemma_entries_push(before, last);
                }
            }
            assert(all.take(all.len() as int) =~= all);
            Json::Object(entries)
        },
    }
}

/// The map that `serde_json` makes of a series of insertions.
fn map_from_entries(entries: Vec<(String, Json)>) -> (map: serde_json::Map<
    String,
    serde_json::Value,
>)
    ensures
        map_tree(map) == crate::json::entries_view(entries@),
    decreases entries@,
{
    let ghost all = entries@;
    let mut map = map_new();
    proof {
        assert(map_tree(map) =~= crate::json::entries_view(all.take(0)));
    }
    for entry in iter: entries
        invariant
            iter.seq() == all,
            all == entries@,
            map_tree(map) == crate::json::entries_view(all.take(iter.index())),
    {
        proof {
            let k = iter.index();
            assert(decreases_to!(all => all[k]));
            assert(decreases_to!(all[k] => all[k].1));
            assert(all.take(k + 1).drop_last() =~= all.take(k));
        }
        let (key, item) = entry;
        let value = value_from_json(item);
        map_insert(&mut map, key, value);
    }
    assert(all.take(all.len() as int) =~= all);
    map
}

/// The values that `serde_json` makes of a list of values.
fn values_from_items(items: Vec<Json>) -> (values: Vec<serde_json::Value>)
    ensures
        value_trees(values@) == crate::json::items_view(items@),
    decreases items@,
{
    let ghost all = items@;
    let mut values: Vec<serde_json::Value> = Vec::new();
    for item in iter: items
        invariant
            iter.seq() == all,
            all == items@,
            value_trees(values@) == crate::json::items_view(all).take(iter.index()),
    {
        proof {
            let k = iter.index();
            assert(decreases_to!(all => all[k]));
        }
        let ghost before = values@;
        let value = value_from_json(item);
        values.push(value);
        proof {
            let k = iter.index();
            assert(value_trees(before.push(value)) =~= value_trees(before).push(value_tree(value)));
            assert(crate::json::items_view(all).take(k + 1) =~= crate::json::items_view(all).take(
                k,
            ).push(crate::json::items_view(all)[k]));
        }
    }
    assert(crate::json::items_view(all).take(all.len() as int) =~= crate::json::items_view(all));
    values
}

/// The value that `serde_json` makes of a value.
fn value_from_json(json: Json) -> (value: serde_json::Value)
    ensures
        value_tree(value) == json@,
    decreases json,
{
    match json {
        Json::Null => close_value(Node::Null),
        Json::Bool(b) => close_value(Node::Bool(b)),
        Json::Number(n) => close_value(Node::Number(n)),
        Json::String(s) => close_value(Node::String(s)),
        Json::Array(items) => {
            let values = values_from_items(items);
            close_value(Node::Array(values))
        },
        Json::Object(entries) => {
            let map = map_from_entries(entries);
            close_value(Node::Object(map))
        },
    }
}

/// What a reading gave, or why it failed.
pub open spec fn json_outcome(result: Result<Json, String>) -> Result<JsonView, Seq<char>> {
    match result {
        Ok(json) => Ok(json@),
        Err(message) => Err(message@),
    }
}

/// Reads a JSON value.
pub fn read_json(body: &[u8]) -> (result: Result<Json, String>)
    ensures
        json_outcome(result) == read_text(body@),
{
    match value_from_slice(body) {
        Ok(value) => Ok(json_from_value(value)),
        Err(error) => Err(error_message(error)),
    }
}

/// Writes a list of JSON values, laid out for a reader.
pub fn write_pretty(items: Vec<Json>) -> (text: String)
    ensures
        text@ == pretty_text(crate::json::items_view(items@)),
{
    let values = values_from_items(items);
    values_to_string_pretty(&values).unwrap()
}

/// A value as an error message shows it.
pub fn describe_json(json: Json) -> (text: String)
    ensures
        text@ == value_debug(json@),
{
    let value = value_from_json(json);
    debug_value(&value)
}

/// The entries of an object as an error message shows them.
pub fn describe_entries(entries: Vec<(String, Json)>) -> (text: String)
    ensures
        text@ == map_debug(crate::json::entries_view(entries@)),
{
    let map = map_from_entries(entries);
    debug_map(&map)
}

} // verus!
