use upctl_svc::decode::parse_json;
use upctl_svc::gitea::{Gitea, Method, Outcome};
use upctl_svc::json::Json;
use upctl_svc::response::{HtyResponse, Status};
use upctl_svc::tickets::{
    answer_detail, answer_list, body_without_submitter, credit_submitter, credit_submitters, finish_get_ticket,
    gitea_get_ticket, gitea_list_tickets, is_urgent, put_urgent_first, submitter_name,
    ticket_detail, ticket_list, TicketQuery,
};

const PREFIX: &str = "不要进入plan mode，直接干活\n\n";

fn gitea() -> Gitea {
    Gitea { base: "http://g/api/v1".to_string(), authorization: "token t".to_string() }
}

fn query(state: Option<&str>, labels: Option<&str>) -> TicketQuery {
    TicketQuery {
        state: state.map(|s| s.to_string()),
        limit: None,
        page: None,
        labels: labels.map(|l| l.to_string()),
    }
}

fn reply(status: u16, body: &str) -> Outcome {
    Outcome::Reply { status, body: Some(body.to_string()) }
}

fn json(text: &str) -> Json {
    parse_json(text).unwrap()
}

fn list(text: &str) -> Vec<Json> {
    match json(text) {
        Json::Array(items) => items,
        _ => panic!("no list"),
    }
}

fn ids(tickets: &Vec<Json>) -> Vec<i64> {
    tickets.iter().map(|t| t.get("id").unwrap().as_i64().unwrap()).collect()
}

fn shown(resp: HtyResponse<Json>) -> Vec<i64> {
    match resp.d.unwrap().get("tickets") {
        Some(Json::Array(tickets)) => ids(tickets),
        _ => panic!("no tickets"),
    }
}

const TICKETS: &str = r#"[
    {"id": 1, "labels": [{"name": "bug"}]},
    {"id": 2, "labels": [{"name": "bug"}, {"name": "urgent"}]},
    {"id": 3},
    {"id": 4, "labels": [{"name": "urgent"}]},
    {"id": 5, "labels": "urgent"}
]"#;

#[test]
fn open_tickets_are_listed_by_default() {
    let (request, waiting) = gitea_list_tickets(&gitea(), &query(None, None));
    assert_eq!(request.method, Method::Get);
    assert_eq!(
        request.url,
        "http://g/api/v1/repos/weli/tickets/issues?state=open&limit=50&page=1&sort=created&order=desc",
    );
    assert_eq!(request.authorization, "token t");
    assert_eq!(request.payload, None);
    assert_eq!(waiting.state, "open");
}

#[test]
fn closed_tickets_are_listed_by_update() {
    let mut q = query(Some("closed"), Some("bug,urgent"));
    q.limit = Some("5".to_string());
    q.page = Some("2".to_string());
    let (request, waiting) = gitea_list_tickets(&gitea(), &q);
    assert_eq!(
        request.url,
        "http://g/api/v1/repos/weli/tickets/issues?state=closed&limit=5&page=2&labels=bug,urgent&sort=updated&order=desc",
    );
    assert_eq!(waiting.state, "closed");
}

#[test]
fn all_tickets_are_listed_by_creation() {
    let (request, waiting) = gitea_list_tickets(&gitea(), &query(Some("all"), Some("")));
    assert_eq!(
        request.url,
        "http://g/api/v1/repos/weli/tickets/issues?state=all&limit=50&page=1&labels=&sort=created&order=desc",
    );
    assert_eq!(waiting.state, "all");
}

#[test]
fn the_submitter_stands_in_the_first_line() {
    assert_eq!(submitter_name("> 提交者: 王五\n\n正文"), Some("王五"));
    assert_eq!(submitter_name("> 提交者: 王五"), Some("王五"));
    assert_eq!(submitter_name("> 提交者:  a "), Some(" a "));
    assert_eq!(submitter_name("> 提交者: \nx"), None);
    assert_eq!(submitter_name("> 提交者: "), None);
    assert_eq!(submitter_name("x> 提交者: a"), None);
    assert_eq!(submitter_name(""), None);
}

#[test]
fn the_body_is_shown_without_that_line() {
    assert_eq!(body_without_submitter("> 提交者: 王五\n\n  正文\n"), "正文\n");
    assert_eq!(body_without_submitter("> 提交者: 王五\n"), "");
    assert_eq!(body_without_submitter("> 提交者: 王五"), "> 提交者: 王五");
    assert_eq!(body_without_submitter("正文"), "正文");
}

#[test]
fn the_submitter_becomes_the_user() {
    let t = credit_submitter(json(
        r#"{"id": 1, "user": {"login": "bot", "id": 9}, "body": "> 提交者: 王五\n\n正文"}"#,
    ));
    let user = t.get("user").unwrap();
    assert_eq!(user.get("login").unwrap().as_str(), Some("王五"));
    assert_eq!(user.get("id").unwrap().as_i64(), Some(9));
    assert_eq!(t.get("body").unwrap().as_str(), Some("正文"));
    assert_eq!(t.get("id").unwrap().as_i64(), Some(1));
}

#[test]
fn a_ticket_without_user_object_only_changes_its_body() {
    let t = credit_submitter(json(r#"{"user": null, "body": "> 提交者: a\nb"}"#));
    assert_eq!(t.get("user"), Some(&Json::Null));
    assert_eq!(t.get("body").unwrap().as_str(), Some("b"));
    let t = credit_submitter(json(r#"{"body": "> 提交者: a\nb"}"#));
    assert_eq!(t.get("user"), None);
}

#[test]
fn a_ticket_that_names_no_submitter_stays_as_it_is() {
    for text in [
        r#"{"user": {"login": "bot"}, "body": "正文"}"#,
        r#"{"user": {"login": "bot"}, "body": "> 提交者: \nx"}"#,
        r#"{"user": {"login": "bot"}, "body": null}"#,
        r#"{"user": {"login": "bot"}}"#,
        "[1]",
        "\"> 提交者: a\"",
    ] {
        assert_eq!(credit_submitter(json(text)), json(text));
    }
}

#[test]
fn urgent_is_a_label() {
    assert!(is_urgent(&json(r#"{"labels": [{"name": "bug"}, {"name": "urgent"}]}"#)));
    for text in [
        r#"{"labels": [{"name": "Urgent"}]}"#,
        r#"{"labels": ["urgent"]}"#,
        r#"{"labels": {"name": "urgent"}}"#,
        r#"{"labels": []}"#,
        r#"{"name": "urgent"}"#,
        "null",
    ] {
        assert!(!is_urgent(&json(text)), "{}", text);
    }
}

#[test]
fn urgent_tickets_come_first_and_keep_their_order() {
    assert_eq!(ids(&put_urgent_first(list(TICKETS))), vec![2, 4, 1, 3, 5]);
    assert_eq!(put_urgent_first(vec![]), vec![]);
}

#[test]
fn crediting_keeps_the_order_and_the_urgency() {
    let tickets = credit_submitters(list(
        r#"[{"id": 1, "body": "> 提交者: a\nb", "labels": [{"name": "urgent"}]},
            {"id": 2, "body": "c"}]"#,
    ));
    assert_eq!(ids(&tickets), vec![1, 2]);
    assert!(is_urgent(&tickets[0]));
    assert!(!is_urgent(&tickets[1]));
    assert_eq!(tickets[0].get("body").unwrap().as_str(), Some("b"));
}

#[test]
fn only_the_open_list_is_sorted() {
    assert_eq!(shown(ticket_list("open", list(TICKETS))), vec![2, 4, 1, 3, 5]);
    assert_eq!(shown(ticket_list("closed", list(TICKETS))), vec![1, 2, 3, 4, 5]);
    assert_eq!(shown(ticket_list("all", list(TICKETS))), vec![1, 2, 3, 4, 5]);
}

#[test]
fn the_list_carries_the_prompt_prefix() {
    let resp = ticket_list("open", vec![]);
    assert!(resp.r);
    assert_eq!(resp.e, None);
    let d = resp.d.unwrap();
    assert_eq!(d.get("claude_prompt_prefix").unwrap().as_str(), Some(PREFIX));
    assert_eq!(d.get("tickets"), Some(&Json::array(vec![])));
}

#[test]
fn the_list_answers_from_the_reply() {
    let (_, waiting) = gitea_list_tickets(&gitea(), &query(None, None));
    assert_eq!(shown(waiting.finish(reply(200, TICKETS)).unwrap()), vec![2, 4, 1, 3, 5]);
}

#[test]
fn only_lists_are_answered() {
    let tickets = || Some(list(TICKETS));
    assert_eq!(shown(answer_list("open", tickets()).unwrap()), vec![2, 4, 1, 3, 5]);
    assert_eq!(answer_list("open", None), Err(Status::InternalServerError));
    assert!(answer_detail(Some(Json::Null), tickets()).is_ok());
    assert_eq!(answer_detail(None, tickets()), Err(Status::InternalServerError));
    assert_eq!(answer_detail(Some(Json::Null), None), Err(Status::InternalServerError));
    let raw = r#"{"$serde_json::private::RawValue": "[]"}"#;
    let (_, waiting) = gitea_list_tickets(&gitea(), &query(None, None));
    assert_eq!(waiting.finish(reply(200, raw)), Err(Status::InternalServerError));
    assert_eq!(
        finish_get_ticket(reply(200, "{}"), reply(200, raw)),
        Err(Status::InternalServerError),
    );
    assert!(finish_get_ticket(reply(200, raw), reply(200, " []")).is_ok());
}

#[test]
fn the_list_fails_where_gitea_does() {
    let unread = Outcome::Reply { status: 200, body: None };
    for outcome in [
        Outcome::Unsent,
        unread,
        reply(199, "[]"),
        reply(300, "[]"),
        reply(500, "[]"),
        reply(200, "{}"),
        reply(200, "oops"),
    ] {
        let (_, waiting) = gitea_list_tickets(&gitea(), &query(None, None));
        assert_eq!(waiting.finish(outcome), Err(Status::InternalServerError));
    }
}

#[test]
fn a_ticket_is_asked_for_with_its_comments() {
    let (issue, comments) = gitea_get_ticket(&gitea(), "7");
    assert_eq!(issue.method, Method::Get);
    assert_eq!(issue.url, "http://g/api/v1/repos/weli/tickets/issues/7");
    assert_eq!(issue.authorization, "token t");
    assert_eq!(comments.method, Method::Get);
    assert_eq!(comments.url, "http://g/api/v1/repos/weli/tickets/issues/7/comments");
    assert_eq!(comments.authorization, "token t");
}

#[test]
fn the_detail_holds_the_ticket_and_its_comments() {
    let resp = ticket_detail(
        json(r#"{"user": {}, "body": "> 提交者: a\n\nb"}"#),
        list(r#"[{"body": "> 提交者: c\n\nd"}]"#),
    );
    let d = resp.d.unwrap();
    let issue = d.get("issue").unwrap();
    assert_eq!(issue.get("user").unwrap().get("login").unwrap().as_str(), Some("a"));
    assert_eq!(issue.get("body").unwrap().as_str(), Some("b"));
    assert_eq!(
        d.get("comments"),
        Some(&Json::array(vec![
            Json::empty_object().with_field("body", Json::text("> 提交者: c\n\nd")),
        ])),
    );
    assert_eq!(d.get("claude_prompt_prefix").unwrap().as_str(), Some(PREFIX));
}

#[test]
fn the_detail_does_not_look_at_the_status() {
    let resp = finish_get_ticket(reply(404, "{\"message\": \"no\"}"), reply(404, "[]")).unwrap();
    let d = resp.d.unwrap();
    assert_eq!(d.get("issue").unwrap().get("message").unwrap().as_str(), Some("no"));
    assert_eq!(d.get("comments"), Some(&Json::array(vec![])));
}

#[test]
fn the_detail_fails_without_ticket_or_comments() {
    let unread = || Outcome::Reply { status: 200, body: None };
    for (issue, comments) in [
        (Outcome::Unsent, reply(200, "[]")),
        (reply(200, "{}"), Outcome::Unsent),
        (unread(), reply(200, "[]")),
        (reply(200, "{}"), unread()),
        (reply(200, "oops"), reply(200, "[]")),
        (reply(200, "{}"), reply(200, "{}")),
    ] {
        assert_eq!(finish_get_ticket(issue, comments), Err(Status::InternalServerError));
    }
}
