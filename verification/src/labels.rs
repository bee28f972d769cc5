//! Labels: from the names that callers use to the ids that Gitea uses.
use vstd::hash_map::StringHashMap;
use vstd::prelude::*;

use crate::decode::{json_list_of, list_view, parse_json_list};
use crate::gitea::{reply_text, Outcome, OutcomeView};
use crate::json::{field, item_views, Json, JsonView};
use crate::response::{answer, ok_view, wrap_ok_resp, HtyResponse, Status};

verus! {

/// The ids of the labels, by name.
pub struct LabelMap {
    ids: StringHashMap<i64>,
}

impl View for LabelMap {
    type V = Map<Seq<char>, i64>;

    closed spec fn view(&self) -> Map<Seq<char>, i64> {
        self.ids@
    }
}

impl LabelMap {
    /// No labels.
    pub fn new() -> (m: LabelMap)
        ensures
            m@ == Map::<Seq<char>, i64>::empty(),
    {
        LabelMap { ids: StringHashMap::new() }
    }

    /// Sets the id of a label.
    pub fn insert(&mut self, name: String, id: i64)
        ensures
            final(self)@ == old(self)@.insert(name@, id),
    {
        self.ids.insert(name, id);
    }

    /// The id of a label.
    pub fn get(&self, name: &str) -> (id: Option<i64>)
        ensures
            id == if self@.contains_key(name@) {
                Some(self@[name@])
            } else {
                None
            },
    {
        match self.ids.get(name) {
            Some(id) => Some(*id),
            None => None,
        }
    }
}

/// The names that the map knows, in their order.
pub open spec fn known_names(names: Seq<Seq<char>>, map: Map<Seq<char>, i64>) -> Seq<Seq<char>> {
    names.filter(|n: Seq<char>| map.contains_key(n))
}

/// The ids of the labels that are known, in the order of their names.
pub open spec fn ids_of(names: Seq<Seq<char>>, map: Map<Seq<char>, i64>) -> Seq<i64> {
    known_names(names, map).map_values(|n: Seq<char>| map[n])
}

/// A further name adds its id at the end, where it is known.
proof fn lemma_ids_of_push(names: Seq<Seq<char>>, n: Seq<char>, map: Map<Seq<char>, i64>)
    ensures
        ids_of(names.push(n), map) == if map.contains_key(n) {
            ids_of(names, map).push(map[n])
        } else {
            ids_of(names, map)
        },
{
    reveal(Seq::filter);
    assert(names.push(n).drop_last() =~= names);
    if map.contains_key(n) {
        assert(ids_of(names.push(n), map) =~= ids_of(names, map).push(map[n]));
    }
}

/// Only ids of known labels that were named come out, and all of them do.
pub proof fn law_ids_are_those_of_the_names(
    names: Seq<Seq<char>>,
    map: Map<Seq<char>, i64>,
    id: i64,
)
    ensures
        ids_of(names, map).contains(id) <==> exists|n: Seq<char>| #[trigger]
            names.contains(n) && map.contains_key(n) && map[n] == id,
{
    let known = known_names(names, map);
    let pred = |n: Seq<char>| map.contains_key(n);
    broadcast use vstd::seq_lib::group_filter_ensures;

    if ids_of(names, map).contains(id) {
        let i = choose|i: int| 0 <= i < ids_of(names, map).len() && ids_of(names, map)[i] == id;
        let n = known[i];
        assert(known.contains(n));
        names.lemma_filter_contains_rev(pred, n);
        assert(pred(names.filter(pred)[i]));
        assert(names.contains(n) && map.contains_key(n) && map[n] == id);
    }
    if exists|n: Seq<char>| #[trigger] names.contains(n) && map.contains_key(n) && map[n] == id {
        let n = choose|n: Seq<char>| #[trigger]
            names.contains(n) && map.contains_key(n) && map[n] == id;
        let k = choose|k: int| 0 <= k < names.len() && names[k] == n;
        assert(pred(names[k]));
        assert(names.filter(pred).contains(names[k]));
        let i = choose|i: int| 0 <= i < known.len() && known[i] == n;
        assert(ids_of(names, map)[i] == id);
    }
}

/// The name and the id of a label, where the document has both.
pub open spec fn label_entry(label: JsonView) -> Option<(Seq<char>, i64)> {
    match (field(label, "name"@), field(label, "id"@)) {
        (Some(JsonView::Str(name)), Some(JsonView::Number { value: Some(id), .. })) => Some(
            (name, id),
        ),
        _ => None,
    }
}

/// The map that a list of labels writes: later labels replace earlier ones of the same name, and
/// what has no name or no id is passed over.
pub open spec fn label_map_of(labels: Seq<JsonView>) -> Map<Seq<char>, i64>
    decreases labels.len(),
{
    if labels.len() == 0 {
        Map::empty()
    } else {
        let earlier = label_map_of(labels.drop_last());
        match label_entry(labels.last()) {
            Some((name, id)) => earlier.insert(name, id),
            None => earlier,
        }
    }
}

/// The labels, where there is a list of them; an error otherwise.
pub open spec fn labels_or_failure(list: Option<Seq<JsonView>>) -> Result<Seq<JsonView>, Status> {
    match list {
        Some(labels) => Ok(labels),
        None => Err(Status::InternalServerError),
    }
}

/// The list of labels in Gitea's reply; an error where none came or it is no list. The status code
/// of the reply does not count.
pub open spec fn labels_in(outcome: OutcomeView) -> Result<Seq<JsonView>, Status> {
    match reply_text(outcome) {
        Some(text) => labels_or_failure(json_list_of(text)),
        None => Err(Status::InternalServerError),
    }
}

/// The ids of the labels in Gitea's reply; none where the reply could not be had or read.
pub open spec fn known_labels(outcome: OutcomeView) -> Map<Seq<char>, i64> {
    match labels_in(outcome) {
        Ok(labels) => label_map_of(labels),
        Err(_) => Map::empty(),
    }
}

/// The ids of the labels that are known, in the order of their names.
pub fn label_names_to_ids(names: &[String], map: &LabelMap) -> (ids: Vec<i64>)
    ensures
        ids@ == ids_of(names.deep_view(), map@),
{
    let mut ids: Vec<i64> = Vec::new();
    let ghost all = names.deep_view();
    proof {
        reveal(Seq::filter);
        assert(ids@ =~= ids_of(all.take(0), map@));
    }
    for i in 0..names.len()
        invariant
            all == names.deep_view(),
            all.len() == names@.len(),
            ids@ == ids_of(all.take(i as int), map@),
    {
        proof {
            let n = names@[i as int]@;
            assert(all.take(i + 1) =~= all.take(i as int).push(n));
            lemma_ids_of_push(all.take(i as int), n, map@);
        }
        match map.get(names[i].as_str()) {
            Some(id) => ids.push(id),
            None => {},
        }
    }
    assert(all.take(all.len() as int) =~= all);
    ids
}

/// The ids of a list of labels, by name.
pub fn label_map(labels: &Vec<Json>) -> (map: LabelMap)
    ensures
        map@ == label_map_of(item_views(labels@)),
{
    let mut map = LabelMap::new();
    let ghost all = item_views(labels@);
    for i in 0..labels.len()
        invariant
            all == item_views(labels@),
            map@ == label_map_of(all.take(i as int)),
    {
        assert(all.take(i + 1).drop_last() =~= all.take(i as int));
        let label = &labels[i];
        assert(all.take(i + 1).last() == label@);
        match (label.get("name"), label.get("id")) {
            (Some(name), Some(id)) => {
                match (name.as_str(), id.as_i64()) {
                    (Some(name), Some(id)) => map.insert(name.to_owned(), id),
                    _ => {},
                }
            },
            _ => {},
        }
    }
    assert(all.take(all.len() as int) =~= all);
    map
}

/// The labels, where there is a list of them.
pub fn labels_or_error(list: Option<Vec<Json>>) -> (labels: Result<Vec<Json>, Status>)
    ensures
        match labels {
            Ok(labels) => labels_or_failure(list_view(list)) == Ok::<Seq<JsonView>, Status>(
                item_views(labels@),
            ),
            Err(e) => labels_or_failure(list_view(list)) == Err::<Seq<JsonView>, Status>(e),
        },
{
    match list {
        Some(labels) => Ok(labels),
        None => Err(Status::InternalServerError),
    }
}

/// The list of labels in Gitea's reply.
pub fn gitea_label_values(outcome: Outcome) -> (labels: Result<Vec<Json>, Status>)
    ensures
        match labels {
            Ok(labels) => labels_in(outcome@) == Ok::<Seq<JsonView>, Status>(item_views(labels@)),
            Err(e) => labels_in(outcome@) == Err::<Seq<JsonView>, Status>(e),
        },
{
    match outcome {
        Outcome::Reply { body: Some(text), .. } => labels_or_error(parse_json_list(text.as_str())),
        _ => Err(Status::InternalServerError),
    }
}

/// The ids of the labels in Gitea's reply, by name.
pub fn gitea_labels(outcome: Outcome) -> (map: Result<LabelMap, Status>)
    ensures
        match map {
            Ok(map) => labels_in(outcome@) is Ok && map@ == label_map_of(
                labels_in(outcome@)->Ok_0,
            ),
            Err(e) => labels_in(outcome@) == Err::<Seq<JsonView>, Status>(e),
        },
{
    match gitea_label_values(outcome) {
        Ok(labels) => Ok(label_map(&labels)),
        Err(e) => Err(e),
    }
}

/// The ids of the labels in Gitea's reply, by name; none where the reply could not be had or read.
pub fn labels_or_none(outcome: Outcome) -> (map: LabelMap)
    ensures
        map@ == known_labels(outcome@),
{
    match gitea_labels(outcome) {
        Ok(map) => map,
        Err(_) => LabelMap::new(),
    }
}

/// Answers with the labels of the repository, as Gitea lists them. The request for them is
/// `Gitea::labels_request`.
pub fn gitea_list_labels(outcome: Outcome) -> (resp: Result<HtyResponse<Vec<Json>>, Status>)
    ensures
        answer(resp) == match labels_in(outcome@) {
            Ok(labels) => Ok(ok_view(labels)),
            Err(e) => Err(e),
        },
{
    match gitea_label_values(outcome) {
        Ok(labels) => {
            assert(labels.deep_view() =~= item_views(labels@));
            Ok(wrap_ok_resp(labels))
        },
        Err(e) => Err(e),
    }
}

/// Names become ids one by one and in their order: a known name its id, an unknown one nothing.
pub proof fn law_names_become_ids_one_by_one(
    a: Seq<Seq<char>>,
    b: Seq<Seq<char>>,
    name: Seq<char>,
    map: Map<Seq<char>, i64>,
)
    ensures
        ids_of(a + b, map) == ids_of(a, map) + ids_of(b, map),
        map.contains_key(name) ==> ids_of(seq![name], map) == seq![map[name]],
        !map.contains_key(name) ==> ids_of(seq![name], map) == Seq::<i64>::empty(),
{
    let pred = |n: Seq<char>| map.contains_key(n);
    Seq::filter_distributes_over_add(a, b, pred);
    assert(ids_of(a + b, map) =~= ids_of(a, map) + ids_of(b, map));
    reveal(Seq::filter);
    lemma_ids_of_push(Seq::empty(), name, map);
    assert(Seq::<Seq<char>>::empty().push(name) =~= seq![name]);
    assert(ids_of(Seq::empty(), map) =~= Seq::<i64>::empty());
    assert(Seq::<i64>::empty().push(map[name]) =~= seq![map[name]]);
}

/// The id of a name is that of the last label of this name; a name without a label has none.
pub proof fn law_last_label_of_a_name_counts(labels: Seq<JsonView>, i: int, name: Seq<char>, id: i64)
    ensures
        0 <= i < labels.len() && label_entry(labels[i]) == Some((name, id)) && (forall|j: int|
            i < j < labels.len() ==> (label_entry(#[trigger] labels[j]) matches Some(later)
                ==> later.0 != name)) ==> label_map_of(labels).contains_key(name) && label_map_of(
            labels,
        )[name] == id,
        (forall|j: int|
            0 <= j < labels.len() ==> (label_entry(#[trigger] labels[j]) matches Some(entry)
                ==> entry.0 != name)) ==> !label_map_of(labels).contains_key(name),
    decreases labels.len(),
{
    if labels.len() > 0 {
        let rest = labels.drop_last();
        law_last_label_of_a_name_counts(rest, i, name, id);
        assert(forall|j: int| 0 <= j < rest.len() ==> #[trigger] rest[j] == labels[j]);
        assert(labels.last() == labels[labels.len() - 1]);
    }
}

/// A label has the name and the id that its document holds, and counts only where it has both.
pub proof fn law_label_entry(fields: Map<Seq<char>, JsonView>, other: JsonView)
    requires
        !(other is Object),
    ensures
        label_entry(JsonView::Object(fields)) is Some <==> fields.contains_key("name"@)
            && fields["name"@] is Str && fields.contains_key("id"@) && (
        fields["id"@] matches JsonView::Number { value: Some(_), .. }),
        label_entry(JsonView::Object(fields)) matches Some((name, id)) ==> fields["name"@]
            == JsonView::Str(name) && (fields["id"@] matches JsonView::Number { value, .. } && value
            == Some(id)),
        label_entry(other) is None,
{
}

/// The labels of a reply are all that it lists; a reply that lists none, or none at all, is an error,
/// and leaves no label known.
pub proof fn law_labels_of_a_reply(status: u16, text: Seq<char>)
    ensures
        json_list_of(text) matches Some(labels) ==> labels_in(
            OutcomeView::Reply { status, body: Some(text) },
        ) == Ok::<Seq<JsonView>, Status>(labels) && known_labels(
            OutcomeView::Reply { status, body: Some(text) },
        ) == label_map_of(labels),
        json_list_of(text) is None ==> labels_in(OutcomeView::Reply { status, body: Some(text) })
            == Err::<Seq<JsonView>, Status>(Status::InternalServerError) && known_labels(
            OutcomeView::Reply { status, body: Some(text) },
        ) == Map::<Seq<char>, i64>::empty(),
        labels_in(OutcomeView::Unsent) == Err::<Seq<JsonView>, Status>(Status::InternalServerError),
        labels_in(OutcomeView::Reply { status, body: None }) == Err::<Seq<JsonView>, Status>(
            Status::InternalServerError,
        ),
        known_labels(OutcomeView::Unsent) == Map::<Seq<char>, i64>::empty(),
        known_labels(OutcomeView::Reply { status, body: None }) == Map::<Seq<char>, i64>::empty(),
{
}

} // verus!
