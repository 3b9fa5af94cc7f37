//! JSON values as the client reads them.

use vstd::prelude::*;

use crate::text::same_text;

verus! {

/// What a JSON value is: numbers count as far as they are whole, and a record
/// is the list of its entries.
pub enum JsonTree {
    Null,
    Bool(bool),
    /// The number as an unsigned and as a signed integer, where it is one.
    Number(Option<u64>, Option<i64>),
    Text(Seq<char>),
    List(Seq<JsonTree>),
    Record(Seq<(Seq<char>, JsonTree)>),
}

/// A JSON value.
pub enum Json {
    Null,
    Bool(bool),
    /// The number as an unsigned and as a signed integer, where it is one.
    Number(Option<u64>, Option<i64>),
    Text(String),
    List(Vec<Json>),
    Record(Vec<(String, Json)>),
}

impl Json {
    /// The value's content.
    pub open spec fn tree(self) -> JsonTree
        decreases self,
    {
        match self {
            Json::Null => JsonTree::Null,
            Json::Bool(b) => JsonTree::Bool(b),
            Json::Number(u, i) => JsonTree::Number(u, i),
            Json::Text(s) => JsonTree::Text(s@),
            Json::List(items) => JsonTree::List(
                Seq::new(
                    items@.len(),
                    |i: int|
                        if 0 <= i < items@.len() {
                            items@[i].tree()
                        } else {
                            JsonTree::Null
                        },
                ),
            ),
            Json::Record(entries) => JsonTree::Record(
                Seq::new(
                    entries@.len(),
                    |i: int|
                        if 0 <= i < entries@.len() {
                            (entries@[i].0@, entries@[i].1.tree())
                        } else {
                            (Seq::empty(), JsonTree::Null)
                        },
                ),
            ),
        }
    }
}

/// The entry of a record under a key, the first where there are several.
pub open spec fn entry(entries: Seq<(Seq<char>, JsonTree)>, key: Seq<char>) -> Option<JsonTree>
    decreases entries.len(),
{
    if entries.len() == 0 {
        None
    } else if entries[0].0 == key {
        Some(entries[0].1)
    } else {
        entry(entries.drop_first(), key)
    }
}

/// The field of a record; anything but a record has none.
pub open spec fn field(tree: JsonTree, key: Seq<char>) -> Option<JsonTree> {
    match tree {
        JsonTree::Record(entries) => entry(entries, key),
        _ => None,
    }
}

/// The field of a record where it is a text.
pub open spec fn text_field(tree: JsonTree, key: Seq<char>) -> Option<Seq<char>> {
    match field(tree, key) {
        Some(JsonTree::Text(s)) => Some(s),
        _ => None,
    }
}

/// The field of a record where it is a list.
pub open spec fn list_field(tree: JsonTree, key: Seq<char>) -> Option<Seq<JsonTree>> {
    match field(tree, key) {
        Some(JsonTree::List(items)) => Some(items),
        _ => None,
    }
}

/// The field of a record where it is an unsigned integer.
pub open spec fn unsigned_field(tree: JsonTree, key: Seq<char>) -> Option<u64> {
    match field(tree, key) {
        Some(JsonTree::Number(u, _)) => u,
        _ => None,
    }
}

/// The field of a record where it is a signed integer.
pub open spec fn signed_field(tree: JsonTree, key: Seq<char>) -> Option<i64> {
    match field(tree, key) {
        Some(JsonTree::Number(_, i)) => i,
        _ => None,
    }
}

/// The contents of a list of values.
pub open spec fn trees(items: Seq<Json>) -> Seq<JsonTree> {
    Seq::new(items.len(), |i: int| items[i].tree())
}

/// The contents of a record's entries.
pub open spec fn entry_trees(entries: Seq<(String, Json)>) -> Seq<(Seq<char>, JsonTree)> {
    Seq::new(entries.len(), |i: int| (entries[i].0@, entries[i].1.tree()))
}

/// The texts among the values of a list.
pub open spec fn texts_in(items: Seq<JsonTree>) -> Seq<Seq<char>>
    decreases items.len(),
{
    if items.len() == 0 {
        Seq::empty()
    } else {
        match items.last() {
            JsonTree::Text(s) => texts_in(items.drop_last()).push(s),
            _ => texts_in(items.drop_last()),
        }
    }
}

proof fn lemma_entry_skips(entries: Seq<(Seq<char>, JsonTree)>, key: Seq<char>, i: int)
    requires
        0 <= i <= entries.len(),
        forall|j: int| 0 <= j < i ==> (#[trigger] entries[j]).0 != key,
    ensures
        entry(entries, key) == entry(entries.skip(i), key),
    decreases i,
{
    if i == 0 {
        assert(entries.skip(0) =~= entries);
    } else {
        let rest = entries.drop_first();
        assert forall|j: int| 0 <= j < i - 1 implies (#[trigger] rest[j]).0 != key by {
            assert(entries[j + 1].0 != key);
        }
        assert(entries[0].0 != key);
        lemma_entry_skips(rest, key, i - 1);
        assert(rest.skip(i - 1) =~= entries.skip(i));
    }
}

impl Json {
    proof fn lemma_tree(self)
        ensures
            self matches Json::List(items) ==> self.tree() == JsonTree::List(trees(items@)),
            self matches Json::Record(entries) ==> self.tree() == JsonTree::Record(
                entry_trees(entries@),
            ),
    {
        match self {
            Json::List(items) => {
                assert(self.tree()->List_0 =~= trees(items@));
            },
            Json::Record(entries) => {
                assert(self.tree()->Record_0 =~= entry_trees(entries@));
            },
            _ => {},
        }
    }

    /// The field of a record; anything but a record has none.
    pub fn get(&self, key: &str) -> (found: Option<&Json>)
        ensures
            match found {
                Some(value) => field(self.tree(), key@) == Some(value.tree()),
                None => field(self.tree(), key@) is None,
            },
    {
        proof {
            self.lemma_tree();
        }
        match self {
            Json::Record(entries) => {
                let ghost all = entry_trees(entries@);
                let mut i: usize = 0;
                while i < entries.len()
                    invariant
                        i <= entries.len(),
                        all == entry_trees(entries@),
                        self.tree() == JsonTree::Record(all),
                        forall|j: int| 0 <= j < i ==> (#[trigger] all[j]).0 != key@,
                    decreases entries.len() - i,
                {
                    proof {
                        lemma_entry_skips(all, key@, i as int);
                        assert(all.skip(i as int)[0] == all[i as int]);
                    }
                    if same_text(entries[i].0.as_str(), key) {
                        return Some(&entries[i].1);
                    }
                    i = i + 1;
                }
                proof {
                    lemma_entry_skips(all, key@, all.len() as int);
                    assert(all.skip(all.len() as int).len() == 0);
                }
                None
            },
            _ => None,
        }
    }

    /// The field of a record where it is a text.
    pub fn get_text(&self, key: &str) -> (found: Option<&String>)
        ensures
            match found {
                Some(s) => text_field(self.tree(), key@) == Some(s@),
                None => text_field(self.tree(), key@) is None,
            },
    {
        match self.get(key) {
            Some(Json::Text(s)) => Some(s),
            _ => None,
        }
    }

    /// The field of a record where it is a list.
    pub fn get_list(&self, key: &str) -> (found: Option<&Vec<Json>>)
        ensures
            match found {
                Some(items) => list_field(self.tree(), key@) == Some(trees(items@)),
                None => list_field(self.tree(), key@) is None,
            },
    {
        match self.get(key) {
            Some(value) => {
                proof {
                    value.lemma_tree();
                }
                match value {
                    Json::List(items) => Some(items),
                    _ => None,
                }
            },
            None => None,
        }
    }

    /// The field of a record where it is an unsigned integer.
    pub fn get_u64(&self, key: &str) -> (found: Option<u64>)
        ensures
            found == unsigned_field(self.tree(), key@),
    {
        match self.get(key) {
            Some(Json::Number(u, _)) => *u,
            _ => None,
        }
    }

    /// The field of a record where it is a signed integer.
    pub fn get_i64(&self, key: &str) -> (found: Option<i64>)
        ensures
            found == signed_field(self.tree(), key@),
    {
        match self.get(key) {
            Some(Json::Number(_, i)) => *i,
            _ => None,
        }
    }
}

/// The texts among the values of a list, in order.
pub fn collect_texts(items: &Vec<Json>) -> (found: Vec<String>)
    ensures
        crate::text::texts(found@) == texts_in(trees(items@)),
{
    let ghost all = trees(items@);
    let mut found: Vec<String> = Vec::new();
    let mut i: usize = 0;
    assert(all.take(0) =~= Seq::<JsonTree>::empty());
    assert(crate::text::texts(found@) =~= texts_in(all.take(0)));
    while i < items.len()
        invariant
            i <= items.len(),
            all == trees(items@),
            crate::text::texts(found@) == texts_in(all.take(i as int)),
        decreases items.len() - i,
    {
        let ghost before = found@;
        proof {
            assert(all.take(i + 1).drop_last() =~= all.take(i as int));
            assert(all.take(i + 1).last() == items@[i as int].tree());
        }
        if let Json::Text(s) = &items[i] {
            found.push(s.clone());
            assert(crate::text::texts(found@) =~= crate::text::texts(before).push(s@));
        }
        i = i + 1;
    }
    assert(all.take(all.len() as int) =~= all);
    found
}

/// A value of the JSON library.
#[verifier::external_type_specification]
#[verifier::external_body]
pub struct ExValue(serde_json::Value);

/// An error of the JSON library.
#[verifier::external_type_specification]
#[verifier::external_body]
pub struct ExError(serde_json::Error);

/// What a value of the JSON library holds. The entries of a record stand in
/// the order in which its map lists them.
pub uninterp spec fn value_tree(value: serde_json::Value) -> JsonTree;

/// What a text holds as JSON, where it is JSON.
pub uninterp spec fn parsed_tree(text: Seq<char>) -> Option<JsonTree>;

/// `serde_json::from_str` into a `serde_json::Value`: what the value holds, or
/// that there is an error, follows from the text alone.
#[verifier::external_body]
fn parse_value(text: &str) -> (parsed: Result<serde_json::Value, serde_json::Error>)
    ensures
        match parsed {
            Ok(value) => parsed_tree(text@) == Some(value_tree(value)),
            Err(_) => parsed_tree(text@) is None,
        },
{
    serde_json::from_str::<serde_json::Value>(text)
}

/// `serde_json::Value::is_null` holds of null alone.
pub assume_specification[ serde_json::Value::is_null ](value: &serde_json::Value) -> (null: bool)
    ensures
        null == (value_tree(*value) is Null),
;

/// `serde_json::Value::as_bool` gives the truth value of a boolean.
pub assume_specification[ serde_json::Value::as_bool ](value: &serde_json::Value) -> (found: Option<
    bool,
>)
    ensures
        found == (match value_tree(*value) {
            JsonTree::Bool(b) => Some(b),
            _ => None,
        }),
;

/// `serde_json::Value::as_u64` gives a number that is an integer between zero
/// and `u64::MAX`.
pub assume_specification[ serde_json::Value::as_u64 ](value: &serde_json::Value) -> (found: Option<
    u64,
>)
    ensures
        found == (match value_tree(*value) {
            JsonTree::Number(u, _) => u,
            _ => None,
        }),
;

/// `serde_json::Value::as_i64` gives a number that is an integer between
/// `i64::MIN` and `i64::MAX`.
pub assume_specification[ serde_json::Value::as_i64 ](value: &serde_json::Value) -> (found: Option<
    i64,
>)
    ensures
        found == (match value_tree(*value) {
            JsonTree::Number(_, i) => i,
            _ => None,
        }),
;

/// `serde_json::Value::as_str` gives the text of a string.
pub assume_specification[ serde_json::Value::as_str ](value: &serde_json::Value) -> (found: Option<
    &str,
>)
    ensures
        match found {
            Some(s) => value_tree(*value) == JsonTree::Text(s@),
            None => !(value_tree(*value) is Text),
        },
;

/// `serde_json::Value::as_array` gives the values of an array.
pub assume_specification[ serde_json::Value::as_array ](value: &serde_json::Value) -> (found:
    Option<&Vec<serde_json::Value>>)
    ensures
        match found {
            Some(items) => value_tree(*value) == JsonTree::List(
                Seq::new(items@.len(), |i: int| value_tree(items@[i])),
            ),
            None => !(value_tree(*value) is List),
        },
;

/// `serde_json::Value::as_object` gives the map of an object, and
/// `serde_json::Map::iter` lists its keys and values.
#[verifier::external_body]
fn object_entries(value: &serde_json::Value) -> (found: Option<
    Vec<(&String, &serde_json::Value)>,
>)
    ensures
        match found {
            Some(entries) => value_tree(*value) == JsonTree::Record(
                Seq::new(entries@.len(), |i: int| (entries@[i].0@, value_tree(*entries@[i].1))),
            ),
            None => !(value_tree(*value) is Record),
        },
{
    value.as_object().map(|map| map.iter().collect())
}

/// Reads a value of the JSON library.
pub fn from_value(value: &serde_json::Value) -> (json: Json)
    ensures
        json.tree() == value_tree(*value),
    decreases value_tree(*value),
{
    if value.is_null() {
        return Json::Null;
    }
    if let Some(b) = value.as_bool() {
        return Json::Bool(b);
    }
    if let Some(s) = value.as_str() {
        return Json::Text(s.to_owned());
    }
    if let Some(items) = value.as_array() {
        let ghost all = Seq::new(items@.len(), |i: int| value_tree(items@[i]));
        let mut list: Vec<Json> = Vec::new();
        let mut i: usize = 0;
        while i < items.len()
            invariant
                i <= items.len(),
                list.len() == i,
                all == Seq::new(items@.len(), |i: int| value_tree(items@[i])),
                value_tree(*value) == JsonTree::List(all),
                forall|j: int| 0 <= j < i ==> (#[trigger] list@[j]).tree() == all[j],
            decreases items.len() - i,
        {
            assert(decreases_to!(value_tree(*value) => value_tree(*value)->List_0));
            assert(decreases_to!(all => all[i as int]));
            list.push(from_value(&items[i]));
            i = i + 1;
        }
        let json = Json::List(list);
        proof {
            json.lemma_tree();
            assert(trees(list@) =~= all);
        }
        return json;
    }
    if let Some(entries) = object_entries(value) {
        let ghost all = Seq::new(
            entries@.len(),
            |i: int| (entries@[i].0@, value_tree(*entries@[i].1)),
        );
        let mut record: Vec<(String, Json)> = Vec::new();
        let mut i: usize = 0;
        while i < entries.len()
            invariant
                i <= entries.len(),
                record.len() == i,
                all == Seq::new(
                    entries@.len(),
                    |i: int| (entries@[i].0@, value_tree(*entries@[i].1)),
                ),
                value_tree(*value) == JsonTree::Record(all),
                forall|j: int|
                    0 <= j < i ==> ((#[trigger] record@[j]).0@, record@[j].1.tree()) == all[j],
            decreases entries.len() - i,
        {
            assert(decreases_to!(value_tree(*value) => value_tree(*value)->Record_0));
            assert(decreases_to!(all => all[i as int]));
            assert(decreases_to!(all[i as int] => all[i as int].1));
            let (key, inner) = entries[i];
            record.push((key.clone(), from_value(inner)));
            i = i + 1;
        }
        let json = Json::Record(record);
        proof {
            json.lemma_tree();
            assert(entry_trees(record@) =~= all);
        }
        return json;
    }
    Json::Number(value.as_u64(), value.as_i64())
}

/// Reads a JSON text; `None` where it is not JSON.
pub fn parse_json(text: &str) -> (json: Option<Json>)
    ensures
        match json {
            Some(j) => parsed_tree(text@) == Some(j.tree()),
            None => parsed_tree(text@) is None,
        },
{
    match parse_value(text) {
        Ok(value) => Some(from_value(&value)),
        Err(_) => None,
    }
}

/// What stands under a key is what its first entry holds, and nothing where no
/// entry has the key or the value is no record.
pub proof fn fields_are_first_entries(
    entries: Seq<(Seq<char>, JsonTree)>,
    key: Seq<char>,
    i: int,
)
    requires
        0 <= i < entries.len(),
        forall|j: int| 0 <= j < i ==> (#[trigger] entries[j]).0 != key,
    ensures
        entries[i].0 == key ==> field(JsonTree::Record(entries), key) == Some(entries[i].1),
        field(JsonTree::Record(Seq::empty()), key) is None,
        i == entries.len() - 1 && entries[i].0 != key ==> field(JsonTree::Record(entries), key)
            is None,
{
    lemma_entry_skips(entries, key, i);
    assert(entries.skip(i)[0] == entries[i]);
    assert(entries.skip(i).drop_first() =~= entries.skip(i + 1));
    if i == entries.len() - 1 {
        assert(entry(entries.skip(i + 1), key) is None);
    }
}

/// A field is read as what it is: a text only as a text, a list only as a
/// list, a number only as a number.
pub proof fn fields_are_read_as_they_are(tree: JsonTree, key: Seq<char>)
    ensures
        !(tree is Record) ==> field(tree, key) is None,
        match field(tree, key) {
            Some(JsonTree::Text(s)) => {
                &&& text_field(tree, key) == Some(s)
                &&& list_field(tree, key) is None
                &&& unsigned_field(tree, key) is None
                &&& signed_field(tree, key) is None
            },
            Some(JsonTree::List(items)) => {
                &&& list_field(tree, key) == Some(items)
                &&& text_field(tree, key) is None
                &&& unsigned_field(tree, key) is None
                &&& signed_field(tree, key) is None
            },
            Some(JsonTree::Number(u, i)) => {
                &&& unsigned_field(tree, key) == u
                &&& signed_field(tree, key) == i
                &&& text_field(tree, key) is None
                &&& list_field(tree, key) is None
            },
            _ => {
                &&& text_field(tree, key) is None
                &&& list_field(tree, key) is None
                &&& unsigned_field(tree, key) is None
                &&& signed_field(tree, key) is None
            },
        },
{
}

/// Where every value of a list is a text, these are its texts, all of them and
/// in order.
pub proof fn lists_of_texts_are_kept(items: Seq<JsonTree>, lines: Seq<Seq<char>>)
    requires
        items.len() == lines.len(),
        forall|i: int| 0 <= i < items.len() ==> #[trigger] items[i] == JsonTree::Text(lines[i]),
    ensures
        texts_in(items) == lines,
    decreases items.len(),
{
    if items.len() > 0 {
        let shorter = items.drop_last();
        assert forall|i: int| 0 <= i < shorter.len() implies #[trigger] shorter[i]
            == JsonTree::Text(lines.drop_last()[i]) by {
            assert(shorter[i] == items[i]);
        }
        lists_of_texts_are_kept(shorter, lines.drop_last());
        assert(items[items.len() - 1] == JsonTree::Text(lines[lines.len() - 1]));
        assert(lines.drop_last().push(lines.last()) =~= lines);
    } else {
        assert(lines =~= Seq::empty());
    }
}

/// Anything but a text is left out of the texts of a list.
pub proof fn other_values_are_left_out(items: Seq<JsonTree>, value: JsonTree)
    requires
        !(value is Text),
    ensures
        texts_in(items.push(value)) == texts_in(items),
{
    assert(items.push(value).drop_last() =~= items);
}

} // verus!
