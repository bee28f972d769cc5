//! JSON documents: the tree that the service reads and rewrites.
use vstd::prelude::*;

use crate::text::{decimal, decimal_text, same_text};

verus! {

/// A JSON document. A number is held by its printed form, and by its value where that is a 64-bit
/// signed integer. Where a key occurs twice in an object, the later entry counts.
#[derive(Debug, PartialEq)]
pub enum Json {
    Null,
    Bool(bool),
    Number { value: Option<i64>, text: String },
    Str(String),
    Array(Vec<Json>),
    Object(Vec<(String, Json)>),
}

/// What a JSON document means: an object is a map, so the order of its entries does not count.
#[verifier::ext_equal]
pub enum JsonView {
    Null,
    Bool(bool),
    Number { value: Option<i64>, text: Seq<char> },
    Str(Seq<char>),
    Array(Seq<JsonView>),
    Object(Map<Seq<char>, JsonView>),
}

/// The map that a list of entries writes: later entries replace earlier ones.
pub open spec fn entries_map(entries: Seq<(Seq<char>, JsonView)>) -> Map<Seq<char>, JsonView>
    decreases entries.len(),
{
    if entries.len() == 0 {
        Map::empty()
    } else {
        entries_map(entries.drop_last()).insert(entries.last().0, entries.last().1)
    }
}

impl View for Json {
    type V = JsonView;

    open spec fn view(&self) -> JsonView {
        json_view(*self)
    }
}

impl DeepView for Json {
    type V = JsonView;

    open spec fn deep_view(&self) -> JsonView {
        json_view(*self)
    }
}

/// The meaning of a document.
pub open spec fn json_view(j: Json) -> JsonView
    decreases j,
{
    match j {
        Json::Null => JsonView::Null,
        Json::Bool(b) => JsonView::Bool(b),
        Json::Number { value, text } => JsonView::Number { value, text: text@ },
        Json::Str(s) => JsonView::Str(s@),
        Json::Array(items) => JsonView::Array(
            Seq::new(
                items@.len(),
                |i: int|
                    if 0 <= i < items@.len() {
                        json_view(items@[i])
                    } else {
                        JsonView::Null
                    },
            ),
        ),
        Json::Object(entries) => JsonView::Object(fields(entries@)),
    }
}

/// The map that a list of entries writes: later entries replace earlier ones.
pub open spec fn fields(entries: Seq<(String, Json)>) -> Map<Seq<char>, JsonView>
    decreases entries,
{
    if entries.len() == 0 {
        Map::empty()
    } else {
        fields(entries.drop_last()).insert(
            entries[entries.len() - 1].0@,
            json_view(entries[entries.len() - 1].1),
        )
    }
}

/// The meanings of a list of documents.
pub open spec fn item_views(items: Seq<Json>) -> Seq<JsonView> {
    items.map_values(|j: Json| j@)
}

/// The meanings of a list of entries.
pub open spec fn entry_views(entries: Seq<(String, Json)>) -> Seq<(Seq<char>, JsonView)> {
    entries.map_values(|e: (String, Json)| (e.0@, e.1@))
}

/// The value of a field, where the document is an object that has it.
pub open spec fn field(j: JsonView, key: Seq<char>) -> Option<JsonView> {
    match j {
        JsonView::Object(m) => if m.contains_key(key) {
            Some(m[key])
        } else {
            None
        },
        _ => None,
    }
}

/// The text of a field, where the document is an object that has it and it is a string.
pub open spec fn text_field(j: JsonView, key: Seq<char>) -> Option<Seq<char>> {
    match field(j, key) {
        Some(JsonView::Str(s)) => Some(s),
        _ => None,
    }
}

/// The document that is the integer `n`.
pub open spec fn int_view(n: int) -> JsonView {
    JsonView::Number { value: Some(n as i64), text: decimal(n) }
}

/// A list means the list of what its items mean.
pub proof fn lemma_array_view(items: Vec<Json>)
    ensures
        json_view(Json::Array(items)) == JsonView::Array(item_views(items@)),
{
    assert(json_view(Json::Array(items))->Array_0 =~= item_views(items@));
}

/// The fields of an object are the map that its entries write.
pub proof fn lemma_object_view(entries: Seq<(String, Json)>)
    ensures
        fields(entries) == entries_map(entry_views(entries)),
    decreases entries.len(),
{
    if entries.len() > 0 {
        lemma_object_view(entries.drop_last());
        assert(entry_views(entries).drop_last() =~= entry_views(entries.drop_last()));
    }
}

/// The last entry for a key is the one that counts.
pub proof fn lemma_entries_map_last(entries: Seq<(Seq<char>, JsonView)>, i: int)
    requires
        0 <= i < entries.len(),
        forall|j: int| i < j < entries.len() ==> (#[trigger] entries[j]).0 != entries[i].0,
    ensures
        entries_map(entries).contains_key(entries[i].0),
        entries_map(entries)[entries[i].0] == entries[i].1,
    decreases entries.len(),
{
    if i < entries.len() - 1 {
        let rest = entries.drop_last();
        assert forall|j: int| i < j < rest.len() implies (#[trigger] rest[j]).0 != rest[i].0 by {
            assert(entries[j].0 != entries[i].0);
        }
        lemma_entries_map_last(rest, i);
        assert(entries[entries.len() - 1].0 != entries[i].0);
    }
}

/// Finitely many entries write finitely many keys.
pub proof fn lemma_entries_map_finite(entries: Seq<(Seq<char>, JsonView)>)
    ensures
        entries_map(entries).dom().finite(),
    decreases entries.len(),
{
    if entries.len() > 0 {
        lemma_entries_map_finite(entries.drop_last());
    }
}

/// A key without an entry is not in the map.
proof fn lemma_entries_map_none(entries: Seq<(Seq<char>, JsonView)>, key: Seq<char>)
    requires
        forall|j: int| 0 <= j < entries.len() ==> (#[trigger] entries[j]).0 != key,
    ensures
        !entries_map(entries).contains_key(key),
    decreases entries.len(),
{
    if entries.len() > 0 {
        let rest = entries.drop_last();
        assert forall|j: int| 0 <= j < rest.len() implies (#[trigger] rest[j]).0 != key by {
            assert(entries[j].0 != key);
        }
        lemma_entries_map_none(rest, key);
        assert(entries[entries.len() - 1].0 != key);
    }
}

/// Replacing the last entry of a key is an insertion.
proof fn lemma_entries_map_update(entries: Seq<(Seq<char>, JsonView)>, i: int, v: JsonView)
    requires
        0 <= i < entries.len(),
        forall|j: int| i < j < entries.len() ==> (#[trigger] entries[j]).0 != entries[i].0,
    ensures
        entries_map(entries.update(i, (entries[i].0, v))) =~= entries_map(entries).insert(
            entries[i].0,
            v,
        ),
    decreases entries.len(),
{
    let rest = entries.drop_last();
    let updated = entries.update(i, (entries[i].0, v));
    if i < entries.len() - 1 {
        assert forall|j: int| i < j < rest.len() implies (#[trigger] rest[j]).0 != rest[i].0 by {
            assert(entries[j].0 != entries[i].0);
        }
        lemma_entries_map_update(rest, i, v);
        assert(updated.drop_last() =~= rest.update(i, (rest[i].0, v)));
        assert(entries[entries.len() - 1].0 != entries[i].0);
    } else {
        assert(updated.drop_last() =~= rest);
    }
}

/// The last entry for a key.
fn find_entry(entries: &Vec<(String, Json)>, key: &str) -> (found: Option<usize>)
    ensures
        match found {
            Some(i) => {
                &&& i < entries@.len()
                &&& entries@[i as int].0@ == key@
                &&& forall|j: int| i < j < entries@.len() ==> (#[trigger] entries@[j]).0@ != key@
            },
            None => forall|j: int|
                0 <= j < entries@.len() ==> (#[trigger] entries@[j]).0@ != key@,
        },
{
    let mut i: usize = entries.len();
    while i > 0
        invariant
            i <= entries.len(),
            forall|j: int| i <= j < entries@.len() ==> (#[trigger] entries@[j]).0@ != key@,
        decreases i,
    {
        i -= 1;
        if same_text(entries[i].0.as_str(), key) {
            return Some(i);
        }
    }
    None
}

impl Json {
    /// The value of a field of an object.
    pub fn get(&self, key: &str) -> (v: Option<&Json>)
        ensures
            v.deep_view() == field(self@, key@),
    {
        match self {
            Json::Object(entries) => {
                let ghost views = entry_views(entries@);
                proof {
                    lemma_object_view(entries@);
                }
                match find_entry(entries, key) {
                    Some(i) => {
                        proof {
                            assert(views[i as int].0 == key@);
                            assert forall|j: int| i < j < views.len() implies (
                            #[trigger] views[j]).0 != views[i as int].0 by {
                                assert(entries@[j].0@ != key@);
                            }
                            lemma_entries_map_last(views, i as int);
                        }
                        Some(&entries[i].1)
                    },
                    None => {
                        proof {
                            assert forall|j: int| 0 <= j < views.len() implies (
                            #[trigger] views[j]).0 != key@ by {
                                assert(entries@[j].0@ != key@);
                            }
                            lemma_entries_map_none(views, key@);
                        }
                        None
                    },
                }
            },
            _ => None,
        }
    }

    /// The text of a string.
    pub fn as_str(&self) -> (s: Option<&str>)
        ensures
            match s {
                Some(s) => self@ == JsonView::Str(s@),
                None => !(self@ is Str),
            },
    {
        match self {
            Json::Str(s) => Some(s.as_str()),
            _ => None,
        }
    }

    /// The value of a number that is a 64-bit signed integer.
    pub fn as_i64(&self) -> (n: Option<i64>)
        ensures
            n == match self@ {
                JsonView::Number { value, .. } => value,
                _ => None,
            },
    {
        match self {
            Json::Number { value, .. } => *value,
            _ => None,
        }
    }

    /// The same object with one field set; a document that is no object stays as it is.
    pub fn with_field(self, key: &str, v: Json) -> (j: Json)
        ensures
            j@ == match self@ {
                JsonView::Object(m) => JsonView::Object(m.insert(key@, v@)),
                other => other,
            },
    {
        match self {
            Json::Object(entries) => {
                let mut entries = entries;
                let ghost views = entry_views(entries@);
                proof {
                    lemma_object_view(entries@);
                }
                match find_entry(&entries, key) {
                    Some(i) => {
                        proof {
                            assert forall|j: int| i < j < views.len() implies (
                            #[trigger] views[j]).0 != views[i as int].0 by {
                                assert(entries@[j].0@ != key@);
                            }
                            lemma_entries_map_update(views, i as int, v@);
                        }
                        entries.set(i, (key.to_owned(), v));
                        assert(entry_views(entries@) =~= views.update(i as int, (key@, v@)));
                    },
                    None => {
                        entries.push((key.to_owned(), v));
                        assert(entry_views(entries@) =~= views.push((key@, v@)));
                        assert(entry_views(entries@).drop_last() =~= views);
                    },
                }
                proof {
                    lemma_object_view(entries@);
                }
                Json::Object(entries)
            },
            other => other,
        }
    }

    /// The same object with one field of an inner object set. It stays as it is where it has no
    /// such inner object.
    pub fn with_inner_field(self, outer: &str, inner: &str, v: Json) -> (j: Json)
        ensures
            j@ == match field(self@, outer@) {
                Some(JsonView::Object(m)) => JsonView::Object(
                    self@->Object_0.insert(outer@, JsonView::Object(m.insert(inner@, v@))),
                ),
                _ => self@,
            },
    {
        match self {
            Json::Object(entries) => {
                let mut entries = entries;
                let ghost views = entry_views(entries@);
                proof {
                    lemma_object_view(entries@);
                }
                match find_entry(&entries, outer) {
                    Some(i) => {
                        proof {
                            assert forall|j: int| i < j < views.len() implies (
                            #[trigger] views[j]).0 != views[i as int].0 by {
                                assert(entries@[j].0@ != outer@);
                            }
                            assert(views[i as int].0 == outer@);
                            lemma_entries_map_last(views, i as int);
                        }
                        let (key, held) = entries.remove(i);
                        let ghost before = held@;
                        let changed = held.with_field(inner, v);
                        let ghost after = changed@;
                        entries.insert(i, (key, changed));
                        proof {
                            lemma_entries_map_update(views, i as int, after);
                            assert(entry_views(entries@) =~= views.update(
                                i as int,
                                (outer@, after),
                            ));
                            lemma_object_view(entries@);
                            if !(before is Object) {
                                assert(entries_map(views).insert(outer@, after) =~= entries_map(
                                    views,
                                ));
                            }
                        }
                    },
                    None => {
                        proof {
                            assert forall|j: int| 0 <= j < views.len() implies (
                            #[trigger] views[j]).0 != outer@ by {
                                assert(entries@[j].0@ != outer@);
                            }
                            lemma_entries_map_none(views, outer@);
                        }
                    },
                }
                Json::Object(entries)
            },
            other => other,
        }
    }

    /// An object without fields.
    pub fn empty_object() -> (j: Json)
        ensures
            j@ == JsonView::Object(Map::empty()),
    {
        let entries: Vec<(String, Json)> = Vec::new();
        assert(fields(entries@) == Map::<Seq<char>, JsonView>::empty());
        Json::Object(entries)
    }

    /// A string.
    pub fn text(s: &str) -> (j: Json)
        ensures
            j@ == JsonView::Str(s@),
    {
        Json::Str(s.to_owned())
    }

    /// An integer.
    pub fn integer(n: i64) -> (j: Json)
        ensures
            j@ == int_view(n as int),
    {
        Json::Number { value: Some(n), text: decimal_text(n) }
    }

    /// A list.
    pub fn array(items: Vec<Json>) -> (j: Json)
        ensures
            j@ == JsonView::Array(item_views(items@)),
    {
        proof {
            lemma_array_view(items);
        }
        Json::Array(items)
    }

    /// A list of integers.
    pub fn integers(ns: &Vec<i64>) -> (j: Json)
        ensures
            j@ == JsonView::Array(ns@.map_values(|n: i64| int_view(n as int))),
    {
        let mut items: Vec<Json> = Vec::new();
        for i in 0..ns.len()
            invariant
                items@.len() == i,
                forall|k: int| 0 <= k < i ==> (#[trigger] items@[k])@ == int_view(ns@[k] as int),
        {
            items.push(Json::integer(ns[i]));
        }
        assert(item_views(items@) =~= ns@.map_values(|n: i64| int_view(n as int)));
        Json::array(items)
    }
}

/// A field is found in an object that has its key, and nowhere else.
pub proof fn law_field(m: Map<Seq<char>, JsonView>, other: JsonView, key: Seq<char>)
    requires
        !(other is Object),
    ensures
        m.contains_key(key) ==> field(JsonView::Object(m), key) == Some(m[key]),
        !m.contains_key(key) ==> field(JsonView::Object(m), key) is None,
        field(other, key) is None,
        m.contains_key(key) && m[key] is Str ==> text_field(JsonView::Object(m), key) == Some(
            m[key]->Str_0,
        ),
        !m.contains_key(key) || !(m[key] is Str) ==> text_field(JsonView::Object(m), key) is None,
        text_field(other, key) is None,
{
}

/// An integer is held by its value and by its decimal form.
pub proof fn law_integer(n: i64)
    ensures
        int_view(n as int) == (JsonView::Number { value: Some(n), text: decimal(n as int) }),
{
}

/// A document means what it holds: a list its items in their order, an object the last entry of each
/// key, anything else itself.
pub proof fn law_document(j: Json, i: int)
    ensures
        j@ == j.deep_view(),
        j is Null <==> j@ is Null,
        j matches Json::Bool(b) ==> j@ == JsonView::Bool(b),
        j matches Json::Number { value, text } ==> j@ == (JsonView::Number { value, text: text@ }),
        j matches Json::Str(s) ==> j@ == JsonView::Str(s@),
        j matches Json::Array(items) ==> j@ is Array && j@->Array_0.len() == items@.len() && (0 <= i
            < items@.len() ==> j@->Array_0[i] == items@[i]@),
        j matches Json::Object(entries) ==> j@ is Object && (0 <= i < entries@.len() && (forall|
            k: int,
        |
            i < k < entries@.len() ==> (#[trigger] entries@[k]).0@ != entries@[i].0@) ==> field(
            j@,
            entries@[i].0@,
        ) == Some(entries@[i].1@)),
{
    if let Json::Array(items) = j {
        lemma_array_view(items);
    }
    if let Json::Object(entries) = j {
        lemma_object_view(entries@);
        let views = entry_views(entries@);
        if 0 <= i < entries@.len() && (forall|k: int|
            i < k < entries@.len() ==> (#[trigger] entries@[k]).0@ != entries@[i].0@) {
            assert forall|k: int| i < k < views.len() implies (#[trigger] views[k]).0
                != views[i].0 by {
                assert(entries@[k].0@ != entries@[i].0@);
            }
            lemma_entries_map_last(views, i);
        }
    }
}

/// Lists of documents and of entries mean what they hold, each in its place.
pub proof fn law_lists_mean_their_items(items: Seq<Json>, entries: Seq<(String, Json)>, i: int)
    ensures
        item_views(items).len() == items.len(),
        0 <= i < items.len() ==> item_views(items)[i] == items[i]@,
        entry_views(entries).len() == entries.len(),
        0 <= i < entries.len() ==> entry_views(entries)[i] == (entries[i].0@, entries[i].1@),
{
}

/// An object has no field that none of its entries names.
pub proof fn law_object_has_no_other_fields(entries: Vec<(String, Json)>, key: Seq<char>)
    requires
        forall|k: int| 0 <= k < entries@.len() ==> (#[trigger] entries@[k]).0@ != key,
    ensures
        field(Json::Object(entries)@, key) is None,
{
    lemma_object_view(entries@);
    let views = entry_views(entries@);
    assert forall|k: int| 0 <= k < views.len() implies (#[trigger] views[k]).0 != key by {
        assert(entries@[k].0@ != key);
    }
    lemma_entries_map_none(views, key);
}

} // verus!
