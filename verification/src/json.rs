//! JSON values as the library reads and writes them.
use vstd::prelude::*;

verus! {

/// A JSON value.
///
/// The entries of an object are in the order in which they were inserted; of two entries with one
/// key, the later one counts.
#[derive(Debug, PartialEq)]
pub enum Json {
    Null,
    Bool(bool),
    Number(serde_json::Number),
    String(String),
    Array(Vec<Json>),
    Object(Vec<(String, Json)>),
}

/// A JSON number: an integer, or a number that is held as a floating-point number.
pub enum NumberView {
    Integer(int),
    Float(serde_json::Number),
}

/// What a JSON value is: an object is a map from keys to values.
pub enum JsonView {
    Null,
    Bool(bool),
    Number(NumberView),
    String(Seq<char>),
    Array(Seq<JsonView>),
    Object(Map<Seq<char>, JsonView>),
}

/// What a number is.
pub open spec fn number_view(number: serde_json::Number) -> NumberView {
    match crate::document::number_integer(number) {
        Some(i) => NumberView::Integer(i),
        None => NumberView::Float(number),
    }
}

impl Json {
    pub open spec fn view(&self) -> JsonView
        decreases self,
    {
        match self {
            Json::Null => JsonView::Null,
            Json::Bool(b) => JsonView::Bool(*b),
            Json::Number(n) => JsonView::Number(number_view(*n)),
            Json::String(s) => JsonView::String(s@),
            Json::Array(items) => JsonView::Array(items_view(items@)),
            Json::Object(entries) => JsonView::Object(entries_view(entries@)),
        }
    }
}

/// What the items of an array are.
pub open spec fn items_view(items: Seq<Json>) -> Seq<JsonView>
    decreases items,
{
    Seq::new(
        items.len(),
        |i: int|
            if 0 <= i < items.len() {
                items[i].view()
            } else {
                JsonView::Null
            },
    )
}

/// The map that a series of insertions makes.
pub open spec fn entries_view(entries: Seq<(String, Json)>) -> Map<Seq<char>, JsonView>
    decreases entries,
{
    if entries.len() == 0 {
        Map::empty()
    } else {
        entries_view(entries.drop_last()).insert(entries.last().0@, entries.last().1.view())
    }
}

pub proof fn lemma_items_push(items: Seq<Json>, item: Json)
    ensures
        items_view(items.push(item)) == items_view(items).push(item.view()),
{
    assert(items_view(items.push(item)) =~= items_view(items).push(item.view()));
}

pub proof fn lemma_entries_push(entries: Seq<(String, Json)>, entry: (String, Json))
    ensures
        entries_view(entries.push(entry)) == entries_view(entries).insert(entry.0@, entry.1.view()),
{
    assert(entries.push(entry).drop_last() =~= entries);
}

/// Whether a key is the only one of a map.
pub open spec fn has_only_key(map: Map<Seq<char>, JsonView>, key: Seq<char>) -> bool {
    map.dom() == set![key]
}

/// The entry of a map that has exactly one.
pub open spec fn only_entry(map: Map<Seq<char>, JsonView>) -> Option<(Seq<char>, JsonView)> {
    if exists|key: Seq<char>| has_only_key(map, key) {
        let key = choose|key: Seq<char>| has_only_key(map, key);
        Some((key, map[key]))
    } else {
        None
    }
}

/// A map with one key has the entry of that key as its only entry.
pub proof fn lemma_only_entry(map: Map<Seq<char>, JsonView>, key: Seq<char>)
    requires
        has_only_key(map, key),
    ensures
        only_entry(map) == Some((key, map[key])),
{
    let chosen = choose|key: Seq<char>| has_only_key(map, key);
    assert(map.dom().contains(chosen));
}

/// The keys of an object are those of its entries.
proof fn lemma_entry_keys(entries: Seq<(String, Json)>)
    ensures
        forall|i: int|
            0 <= i < entries.len() ==> entries_view(entries).dom().contains(
                (#[trigger] entries[i]).0@,
            ),
    decreases entries.len(),
{
    if entries.len() > 0 {
        lemma_entry_keys(entries.drop_last());
        assert forall|i: int| 0 <= i < entries.len() implies entries_view(entries).dom().contains(
            (#[trigger] entries[i]).0@,
        ) by {
            if i < entries.len() - 1 {
                assert(entries.drop_last()[i] == entries[i]);
            }
        }
    }
}

/// An object with entries has keys.
pub proof fn lemma_some_entry(entries: Seq<(String, Json)>)
    requires
        entries.len() > 0,
    ensures
        entries_view(entries).dom() != Set::<Seq<char>>::empty(),
{
    assert(entries_view(entries).dom().contains(entries.last().0@));
}

/// Entries that all have one key make a map with that key only.
proof fn lemma_one_key(entries: Seq<(String, Json)>, key: Seq<char>)
    requires
        entries.len() > 0,
        forall|i: int| 0 <= i < entries.len() ==> (#[trigger] entries[i]).0@ == key,
    ensures
        entries_view(entries).dom() =~= set![key],
    decreases entries.len(),
{
    let shorter = entries.drop_last();
    assert(entries[entries.len() - 1].0@ == key);
    if shorter.len() > 0 {
        assert forall|i: int| 0 <= i < shorter.len() implies (#[trigger] shorter[i]).0@ == key by {
            assert(shorter[i] == entries[i]);
        }
        lemma_one_key(shorter, key);
    }
}

/// Takes the only entry out of an object that has exactly one.
pub fn take_only_entry(entries: Vec<(String, Json)>) -> (entry: Option<(String, Json)>)
    ensures
        match entry {
            Some((key, value)) => only_entry(entries_view(entries@)) == Some((key@, value@)),
            None => only_entry(entries_view(entries@)) is None,
        },
{
    let ghost all = entries@;
    let mut rest = entries;
    match rest.pop() {
        Some((key, value)) => {
            let mut i: usize = 0;
            while i < rest.len()
                invariant
                    i <= rest.len(),
                    all == entries@,
                    all == rest@.push((key, value)),
                    forall|j: int| 0 <= j < i ==> (#[trigger] all[j]).0@ == key@,
                decreases rest.len() - i,
            {
                if rest[i].0 != key {
                    proof {
                        lemma_entry_keys(all);
                        assert(all[i as int].0@ != key@);
                    }
                    return None;
                }
                i = i + 1;
            }
            proof {
                lemma_one_key(all, key@);
                lemma_only_entry(entries_view(all), key@);
            }
            Some((key, value))
        },
        None => {
            proof {
                assert forall|k: Seq<char>| !has_only_key(entries_view(all), k) by {
                    assert(set![k].contains(k));
                }
            }
            None
        },
    }
}

/// Takes the entry of a key out of an object; gives its value and the other entries.
pub fn take_entry(entries: Vec<(String, Json)>, key: &String) -> (taken: (
    Option<Json>,
    Vec<(String, Json)>,
))
    ensures
        entries_view(taken.1@) == entries_view(entries@).remove(key@),
        match taken.0 {
            Some(value) => entries_view(entries@).contains_key(key@) && entries_view(
                entries@,
            )[key@] == value@,
            None => !entries_view(entries@).contains_key(key@),
        },
{
    let ghost all = entries@;
    let mut found: Option<Json> = None;
    let mut rest: Vec<(String, Json)> = Vec::new();
    proof {
        assert(all.take(0) =~= Seq::empty());
        assert(entries_view(rest@) =~= entries_view(all.take(0)).remove(key@));
    }
    for entry in iter: entries
        invariant
            iter.seq() == all,
            entries_view(rest@) == entries_view(all.take(iter.index())).remove(key@),
            match found {
                Some(value) => entries_view(all.take(iter.index())).contains_key(key@)
                    && entries_view(all.take(iter.index()))[key@] == value@,
                None => !entries_view(all.take(iter.index())).contains_key(key@),
            },
    {
        proof {
            let k = iter.index();
            assert(all.take(k + 1).drop_last() =~= all.take(k));
        }
        if entry.0 == *key {
            proof {
                let k = iter.index();
                assert(entries_view(all.take(k + 1)).remove(key@) =~= entries_view(
                    all.take(k),
                ).remove(key@));
            }
            found = Some(entry.1);
        } else {
            proof {
                let k = iter.index();
                lemma_entries_push(rest@, entry);
                assert(entries_view(all.take(k + 1)).remove(key@) =~= entries_view(
                    all.take(k),
                ).remove(key@).insert(entry.0@, entry.1.view()));
            }
            rest.push(entry);
        }
    }
    assert(all.take(all.len() as int) =~= all);
    (found, rest)
}

} // verus!
