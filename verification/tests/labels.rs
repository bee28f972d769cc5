use upctl_svc::decode::parse_json;
use upctl_svc::gitea::Outcome;
use upctl_svc::json::Json;
use upctl_svc::labels::{
    gitea_label_values, gitea_labels, gitea_list_labels, label_map, label_names_to_ids,
    labels_or_error, labels_or_none, LabelMap,
};
use upctl_svc::response::Status;

fn reply(status: u16, body: &str) -> Outcome {
    Outcome::Reply { status, body: Some(body.to_string()) }
}

fn names(list: &[&str]) -> Vec<String> {
    list.iter().map(|n| n.to_string()).collect()
}

const LABELS: &str = r#"[{"id": 3, "name": "bug", "color": "f00"}, {"id": 9, "name": "urgent"}]"#;

#[test]
fn names_become_ids_in_their_order() {
    let mut map = LabelMap::new();
    map.insert("bug".to_string(), 3);
    map.insert("urgent".to_string(), 9);
    assert_eq!(label_names_to_ids(&names(&["urgent", "bug"]), &map), vec![9, 3]);
    assert_eq!(label_names_to_ids(&names(&["bug", "?", "bug"]), &map), vec![3, 3]);
    assert_eq!(label_names_to_ids(&names(&["?"]), &map), Vec::<i64>::new());
    assert_eq!(label_names_to_ids(&[], &map), Vec::<i64>::new());
    assert_eq!(label_names_to_ids(&names(&["bug"]), &LabelMap::new()), Vec::<i64>::new());
}

#[test]
fn the_last_id_of_a_name_counts() {
    let mut map = LabelMap::new();
    map.insert("bug".to_string(), 3);
    map.insert("bug".to_string(), 4);
    assert_eq!(map.get("bug"), Some(4));
    assert_eq!(map.get("Bug"), None);
}

#[test]
fn labels_without_name_or_id_are_passed_over() {
    let labels = match parse_json(
        r#"[{"id": 1}, {"name": "a"}, {"id": "2", "name": "b"}, {"id": 3, "name": 4},
            {"id": 1.5, "name": "c"}, 7, null, {"id": -5, "name": "d"},
            {"id": 6, "name": "d"}]"#,
    ) {
        Some(Json::Array(labels)) => labels,
        _ => unreachable!(),
    };
    let map = label_map(&labels);
    assert_eq!(map.get("a"), None);
    assert_eq!(map.get("b"), None);
    assert_eq!(map.get("c"), None);
    assert_eq!(map.get("d"), Some(6));
}

#[test]
fn labels_are_read_whatever_the_status() {
    for status in [200, 404, 500] {
        let map = gitea_labels(reply(status, LABELS)).ok().unwrap();
        assert_eq!(map.get("bug"), Some(3));
        assert_eq!(map.get("urgent"), Some(9));
    }
}

#[test]
fn labels_that_cannot_be_had_are_an_error() {
    let unread = Outcome::Reply { status: 200, body: None };
    for outcome in
        [Outcome::Unsent, unread, reply(200, "{}"), reply(200, "no"), reply(200, "null")]
    {
        assert_eq!(gitea_label_values(outcome), Err(Status::InternalServerError));
    }
    assert_eq!(gitea_labels(Outcome::Unsent).err(), Some(Status::InternalServerError));
    assert_eq!(gitea_list_labels(Outcome::Unsent), Err(Status::InternalServerError));
}

#[test]
fn only_a_list_is_taken_for_labels() {
    assert_eq!(labels_or_error(Some(vec![Json::Null])), Ok(vec![Json::Null]));
    assert_eq!(labels_or_error(None), Err(Status::InternalServerError));
    let raw = r#"{"$serde_json::private::RawValue": "[]"}"#;
    assert_eq!(gitea_label_values(reply(200, raw)), Err(Status::InternalServerError));
    assert_eq!(gitea_label_values(reply(200, "\r\n\t []")), Ok(vec![]));
}

#[test]
fn labels_that_cannot_be_had_are_none() {
    assert_eq!(labels_or_none(Outcome::Unsent).get("bug"), None);
    assert_eq!(labels_or_none(reply(200, "no")).get("bug"), None);
    assert_eq!(labels_or_none(reply(200, LABELS)).get("bug"), Some(3));
}

#[test]
fn the_list_of_labels_is_handed_on() {
    let resp = gitea_list_labels(reply(200, LABELS)).unwrap();
    assert!(resp.r);
    assert_eq!(resp.e, None);
    assert_eq!(resp.hty_err, None);
    let labels = resp.d.unwrap();
    assert_eq!(labels.len(), 2);
    assert_eq!(labels[0].get("color").unwrap().as_str(), Some("f00"));
    assert_eq!(labels[1].get("name").unwrap().as_str(), Some("urgent"));
}
