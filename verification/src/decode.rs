//! Reading JSON text with `serde_json`.
use vstd::prelude::*;

use crate::json::{
    entries_map, entry_views, item_views, lemma_array_view, lemma_entries_map_finite,
    lemma_entries_map_last, lemma_object_view, Json, JsonView,
};
use crate::text::chars_of;

verus! {

/// `serde_json`'s document type.
#[verifier::external_type_specification]
#[verifier::external_body]
pub struct ExValue(serde_json::Value);

/// `serde_json`'s error type.
#[verifier::external_type_specification]
#[verifier::external_body]
pub struct ExError(serde_json::Error);

/// What a `serde_json::Value` holds.
pub uninterp spec fn content(v: serde_json::Value) -> JsonView;

/// What `serde_json::from_str` reads in a text; `None` where it refuses the text.
pub uninterp spec fn json_of(text: Seq<char>) -> Option<JsonView>;

/// What a list of values holds.
pub open spec fn contents(items: Seq<serde_json::Value>) -> Seq<JsonView> {
    items.map_values(|v: serde_json::Value| content(v))
}

/// What a list of entries holds.
pub open spec fn entry_contents(entries: Seq<(String, serde_json::Value)>) -> Seq<
    (Seq<char>, JsonView),
> {
    entries.map_values(|e: (String, serde_json::Value)| (e.0@, content(e.1)))
}

/// The outermost layer of a `serde_json::Value`.
pub enum Shape {
    Null,
    Bool(bool),
    Number { value: Option<i64>, text: String },
    Str(String),
    Array(Vec<serde_json::Value>),
    Object(Vec<(String, serde_json::Value)>),
}

/// Calls `serde_json::from_str` for a `serde_json::Value`. Claims that the outcome depends on the
/// text alone, and names it.
#[verifier::external_body]
fn value_from_text(text: &str) -> (r: Result<serde_json::Value, serde_json::Error>)
    ensures
        match r {
            Ok(v) => json_of(text@) == Some(content(v)),
            Err(_) => json_of(text@) is None,
        },
{
    serde_json::from_str(text)
}

/// Takes a `serde_json::Value` apart, one variant for one: a number by `Number::as_i64` and its
/// printed form, an object by the entries that its map hands out. Claims that the pieces are what
/// the value holds, and that no key occurs twice among the entries.
#[verifier::external_body]
fn shape_of(v: serde_json::Value) -> (s: Shape)
    ensures
        content(v) == match s {
            Shape::Null => JsonView::Null,
            Shape::Bool(b) => JsonView::Bool(b),
            Shape::Number { value, text } => JsonView::Number { value, text: text@ },
            Shape::Str(s) => JsonView::Str(s@),
            Shape::Array(items) => JsonView::Array(contents(items@)),
            Shape::Object(entries) => JsonView::Object(entries_map(entry_contents(entries@))),
        },
        s matches Shape::Object(entries) ==> forall|i: int, j: int|
            0 <= i < j < entries@.len() ==> (#[trigger] entries@[i]).0@ != (
            #[trigger] entries@[j]).0@,
{
    match v {
        serde_json::Value::Null => Shape::Null,
        serde_json::Value::Bool(b) => Shape::Bool(b),
        serde_json::Value::Number(n) => Shape::Number { value: n.as_i64(), text: n.to_string() },
        serde_json::Value::String(s) => Shape::Str(s),
        serde_json::Value::Array(items) => Shape::Array(items),
        serde_json::Value::Object(map) => Shape::Object(map.into_iter().collect()),
    }
}

/// The document that a `serde_json::Value` holds.
fn document(v: serde_json::Value) -> (j: Json)
    ensures
        j@ == content(v),
    decreases content(v),
{
    match shape_of(v) {
        Shape::Null => Json::Null,
        Shape::Bool(b) => Json::Bool(b),
        Shape::Number { value, text } => Json::Number { value, text },
        Shape::Str(s) => Json::Str(s),
        Shape::Array(items) => {
            let ghost held = items@;
            let mut documents: Vec<Json> = Vec::new();
            for item in it: items
                invariant
                    it.seq() == held,
                    content(v) == JsonView::Array(contents(held)),
                    item_views(documents@) == contents(held).take(it.index() as int),
            {
                let ghost i = it.index() as int;
                let ghost earlier = documents@;
                assert(held[i] == item);
                assert(contents(held)[i] == content(item));
                assert(decreases_to!(content(v) => content(v)->Array_0));
                assert(decreases_to!(content(v)->Array_0 => content(v)->Array_0[i]));
                let d = document(item);
                documents.push(d);
                assert(item_views(documents@) =~= item_views(earlier).push(d@));
                assert(item_views(documents@) =~= contents(held).take(i + 1));
            }
            proof {
                lemma_array_view(documents);
                assert(contents(held).take(held.len() as int) =~= contents(held));
            }
            Json::Array(documents)
        },
        Shape::Object(entries) => {
            let ghost held = entries@;
            let mut documents: Vec<(String, Json)> = Vec::new();
            for entry in it: entries
                invariant
                    it.seq() == held,
                    content(v) == JsonView::Object(entries_map(entry_contents(held))),
                    entry_views(documents@) == entry_contents(held).take(it.index() as int),
                    forall|i: int, j: int|
                        0 <= i < j < held.len() ==> (#[trigger] held[i]).0@ != (
                        #[trigger] held[j]).0@,
            {
                let ghost i = it.index() as int;
                let ghost earlier = documents@;
                proof {
                    let all = entry_contents(held);
                    assert(all[i] == (entry.0@, content(entry.1)));
                    assert forall|j: int| i < j < all.len() implies (#[trigger] all[j]).0
                        != all[i].0 by {
                        assert(held[i].0@ != held[j].0@);
                    }
                    lemma_entries_map_last(all, i);
                    lemma_entries_map_finite(all);
                    assert(decreases_to!(content(v) => content(v)->Object_0));
                    assert(decreases_to!(
                        content(v)->Object_0 => content(v)->Object_0[entry.0@]));
                }
                let (key, value) = entry;
                let d = document(value);
                documents.push((key, d));
                assert(entry_views(documents@) =~= entry_views(earlier).push((key@, d@)));
                assert(entry_views(documents@) =~= entry_contents(held).take(i + 1));
            }
            proof {
                lemma_object_view(documents@);
                assert(entry_contents(held).take(held.len() as int) =~= entry_contents(held));
            }
            Json::Object(documents)
        },
    }
}

/// Whether `c` is white space in JSON.
pub open spec fn json_space(c: char) -> bool {
    c == ' ' || c == '\n' || c == '\t' || c == '\r'
}

/// Whether the first character of `text` after white space opens a list.
pub open spec fn written_as_list(text: Seq<char>) -> bool
    decreases text.len(),
{
    if text.len() > 0 && json_space(text[0]) {
        written_as_list(text.skip(1))
    } else {
        text.len() > 0 && text[0] == '['
    }
}

/// The list that a text writes, given the document that is read in it. A text that writes an object
/// writes no list, though `serde_json` reads one where the object is its own form of raw text.
pub open spec fn list_in(text: Seq<char>, document: Option<JsonView>) -> Option<Seq<JsonView>> {
    match document {
        Some(JsonView::Array(items)) => if written_as_list(text) {
            Some(items)
        } else {
            None
        },
        _ => None,
    }
}

/// The list that a text writes; `None` where it writes none.
pub open spec fn json_list_of(text: Seq<char>) -> Option<Seq<JsonView>> {
    list_in(text, json_of(text))
}

/// What a list of documents means, where there is one.
pub open spec fn list_view(list: Option<Vec<Json>>) -> Option<Seq<JsonView>> {
    match list {
        Some(items) => Some(item_views(items@)),
        None => None,
    }
}

/// White space at the start does not count.
proof fn lemma_written_as_list(text: Seq<char>, k: int)
    requires
        0 <= k <= text.len(),
        forall|i: int| 0 <= i < k ==> json_space(#[trigger] text[i]),
        k < text.len() ==> !json_space(text[k]),
    ensures
        written_as_list(text) == (k < text.len() && text[k] == '['),
    decreases k,
{
    if k > 0 {
        let rest = text.skip(1);
        assert forall|i: int| 0 <= i < k - 1 implies json_space(#[trigger] rest[i]) by {
            assert(rest[i] == text[i + 1]);
        }
        lemma_written_as_list(rest, k - 1);
        assert(json_space(text[0]));
    }
}

/// Whether a text is written as a list.
pub fn is_written_as_list(text: &str) -> (yes: bool)
    ensures
        yes == written_as_list(text@),
{
    let chars = chars_of(text);
    let mut i: usize = 0;
    while i < chars.len() && (chars[i] == ' ' || chars[i] == '\n' || chars[i] == '\t' || chars[i]
        == '\r')
        invariant
            chars@ == text@,
            i <= chars.len(),
            forall|j: int| 0 <= j < i ==> json_space(#[trigger] text@[j]),
        decreases chars.len() - i,
    {
        i += 1;
    }
    proof {
        lemma_written_as_list(text@, i as int);
    }
    i < chars.len() && chars[i] == '['
}

/// The list that a text writes, given the document that was read in it.
pub fn list_of_document(text: &str, document: Option<Json>) -> (list: Option<Vec<Json>>)
    ensures
        list_view(list) == list_in(text@, document.deep_view()),
{
    match document {
        Some(Json::Array(items)) => {
            proof {
                lemma_array_view(items);
            }
            if is_written_as_list(text) {
                Some(items)
            } else {
                None
            }
        },
        _ => None,
    }
}

/// Reads a list of documents; `None` where the text writes none.
pub fn parse_json_list(text: &str) -> (list: Option<Vec<Json>>)
    ensures
        list_view(list) == json_list_of(text@),
{
    list_of_document(text, parse_json(text))
}

/// Reads a document; `None` where `serde_json` refuses the text.
pub fn parse_json(text: &str) -> (j: Option<Json>)
    ensures
        j.deep_view() == json_of(text@),
{
    match value_from_text(text) {
        Ok(v) => Some(document(v)),
        Err(_) => None,
    }
}

/// A list starts with `[`, and white space before that does not count.
pub proof fn law_lists_start_with_a_bracket(c: char, rest: Seq<char>)
    ensures
        written_as_list(seq!['['] + rest),
        c == ' ' || c == '\n' || c == '\t' || c == '\r' ==> written_as_list(seq![c] + rest)
            == written_as_list(rest),
        c != ' ' && c != '\n' && c != '\t' && c != '\r' && c != '[' ==> !written_as_list(
            seq![c] + rest,
        ),
        !written_as_list(Seq::empty()),
{
    assert((seq![c] + rest).skip(1) =~= rest);
}

/// A list is read whole: exactly the items of the document, in their order.
pub proof fn law_lists_are_read_whole(text: Seq<char>, items: Seq<JsonView>, other: JsonView)
    requires
        !(other is Array),
    ensures
        written_as_list(text) ==> list_in(text, Some(JsonView::Array(items))) == Some(items),
        !written_as_list(text) ==> list_in(text, Some(JsonView::Array(items))) is None,
        list_in(text, Some(other)) is None,
        list_in(text, None) is None,
        written_as_list(text) && json_of(text) == Some(JsonView::Array(items)) ==> json_list_of(text)
            == Some(items),
        json_list_of(text) == Some(items) ==> json_of(text) == Some(JsonView::Array(items)),
{
}

/// A list of documents means the meanings of its items, in their order.
pub proof fn law_list_view(list: Vec<Json>, i: int)
    requires
        0 <= i < list@.len(),
    ensures
        list_view(Some(list)) matches Some(items) && items.len() == list@.len() && items[i]
            == list@[i]@,
        list_view(None) is None,
{
}

} // verus!
