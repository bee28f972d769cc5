use upctl_svc::access::{HtyRole, HtyToken};
use upctl_svc::changes::{
    accepts_comments, add_comment_to, add_comment_to_document, changes_of_close, changes_of_update, comment_body_text,
    forward, forward_outcome, gitea_add_comment, gitea_close_ticket, gitea_create_ticket,
    gitea_update_ticket, issue_request, submitted_body_text, AddComment, AddCommentReq, Change, CloseTicket,
    CreateTicketReq, Series, UpdateTicket, UpdateTicketReq,
};
use upctl_svc::decode::parse_json;
use upctl_svc::gitea::{Gitea, Method, Outcome, Request, Step};
use upctl_svc::json::Json;
use upctl_svc::labels::LabelMap;
use upctl_svc::response::{HtyErrCode, HtyResponse, Status};
use upctl_svc::tickets::credit_submitter;

const ISSUES: &str = "http://g/repos/weli/tickets/issues";
const LABELS: &str =
    r#"[{"id": 3, "name": "bug"}, {"id": 9, "name": "urgent"}, {"id": 4, "name": "in_progress"}]"#;

fn gitea() -> Gitea {
    Gitea { base: "http://g".to_string(), authorization: "token t".to_string() }
}

fn token(role: &str) -> HtyToken {
    HtyToken { roles: Some(vec![HtyRole { role_key: Some(role.to_string()) }]), tags: None }
}

fn reply(status: u16, body: &str) -> Outcome {
    Outcome::Reply { status, body: Some(body.to_string()) }
}

fn strings(list: &[&str]) -> Vec<String> {
    list.iter().map(|n| n.to_string()).collect()
}

fn create(labels: &[&str], submitter: Option<&str>) -> CreateTicketReq {
    CreateTicketReq {
        title: "T".to_string(),
        body: "B".to_string(),
        labels: strings(labels),
        submitter_name: submitter.map(|n| n.to_string()),
    }
}

fn update(state: Option<&str>, labels: &[&str], unlabels: &[&str]) -> UpdateTicketReq {
    UpdateTicketReq {
        state: state.map(|s| s.to_string()),
        labels: strings(labels),
        unlabels: strings(unlabels),
    }
}

fn comment(submitter: Option<&str>) -> AddCommentReq {
    AddCommentReq { body: "B".to_string(), submitter_name: submitter.map(|n| n.to_string()) }
}

fn request(method: Method, url: &str, payload: Option<&str>) -> Request {
    Request {
        method,
        url: url.to_string(),
        authorization: "token t".to_string(),
        payload: payload.map(|p| parse_json(p).unwrap()),
    }
}

fn labels_request() -> Request {
    request(Method::Get, "http://g/repos/weli/tickets/labels", None)
}

fn sent<S, R>(step: Step<S, R>) -> (Request, S) {
    match step {
        Step::Send(request, state) => (request, state),
        Step::Done(_) => panic!("done"),
    }
}

fn done<S, R>(step: Step<S, R>) -> R {
    match step {
        Step::Send(_, _) => panic!("not done"),
        Step::Done(r) => r,
    }
}

fn map() -> LabelMap {
    let mut map = LabelMap::new();
    map.insert("bug".to_string(), 3);
    map.insert("urgent".to_string(), 9);
    map
}

/// Runs an update on the outcomes in turn: what it sends, and what it answers.
fn run_update(
    first: Step<UpdateTicket, Result<(Status, HtyResponse<Json>), Status>>,
    outcomes: Vec<Outcome>,
) -> (Vec<Request>, Result<(Status, HtyResponse<Json>), Status>) {
    let mut requests = Vec::new();
    let mut outcomes = outcomes.into_iter();
    let mut step = first;
    loop {
        match step {
            Step::Send(request, state) => {
                requests.push(request);
                step = state.step(outcomes.next().unwrap());
            }
            Step::Done(r) => return (requests, r),
        }
    }
}

/// Runs the closing of a ticket on the outcomes in turn: what it sends, and what it answers.
fn run_close(
    first: Step<CloseTicket, Result<HtyResponse<Json>, Status>>,
    outcomes: Vec<Outcome>,
) -> (Vec<Request>, Result<HtyResponse<Json>, Status>) {
    let mut requests = Vec::new();
    let mut outcomes = outcomes.into_iter();
    let mut step = first;
    loop {
        match step {
            Step::Send(request, state) => {
                requests.push(request);
                step = state.step(outcomes.next().unwrap());
            }
            Step::Done(r) => return (requests, r),
        }
    }
}

#[test]
fn bodies_name_their_submitter() {
    let name = Some("王五".to_string());
    assert_eq!(submitted_body_text("正文", &name), "> 提交者: 王五\n\n正文");
    assert_eq!(submitted_body_text("正文", &None), "正文");
    assert_eq!(comment_body_text("正文", &name), "> 王五 \n\n正文");
    assert_eq!(comment_body_text("正文", &None), "正文");
}

#[test]
fn replies_are_handed_on() {
    let resp = forward(201, "{}", Some(Json::integer(1)));
    assert!(resp.r);
    assert_eq!(resp.d, Some(Json::integer(1)));
    let resp = forward(200, "oops", None);
    assert!(resp.r);
    assert_eq!(resp.d, Some(Json::Null));
    let resp = forward(422, "bad", Some(Json::Null));
    assert!(!resp.r);
    assert_eq!(resp.d, None);
    assert_eq!(resp.e, Some("Gitea error 422 Unprocessable Entity: bad".to_string()));
    assert_eq!(resp.hty_err, None);
}

#[test]
fn outcomes_are_handed_on() {
    let resp = forward_outcome(reply(201, "{\"id\": 8}")).unwrap();
    assert_eq!(resp.d.unwrap().get("id").unwrap().as_i64(), Some(8));
    assert_eq!(forward_outcome(reply(200, "")).unwrap().d, Some(Json::Null));
    assert_eq!(
        forward_outcome(reply(599, "x")).unwrap().e,
        Some("Gitea error 599 <unknown status code>: x".to_string()),
    );
    assert_eq!(forward_outcome(Outcome::Unsent), Err(Status::InternalServerError));
    assert_eq!(
        forward_outcome(Outcome::Reply { status: 500, body: None }),
        Err(Status::InternalServerError),
    );
}

#[test]
fn a_ticket_is_made_with_the_known_labels() {
    let req = create(&["urgent", "?", "bug"], Some("王五"));
    let (first, state) = gitea_create_ticket(gitea(), &token("TESTER"), req);
    assert_eq!(first, labels_request());
    let (second, state) = sent(state.step(reply(200, LABELS)));
    assert_eq!(second.method, Method::Post);
    assert_eq!(second.url, ISSUES);
    assert_eq!(second.authorization, "token t");
    assert_eq!(
        second.payload,
        Some(
            Json::empty_object()
                .with_field("title", Json::text("T"))
                .with_field("body", Json::text("> 提交者: 王五\n\nB"))
                .with_field("labels", Json::integers(&vec![9, 3])),
        ),
    );
    let resp = done(state.step(reply(201, "{\"id\": 8}"))).unwrap();
    assert!(resp.r);
    assert_eq!(resp.d.unwrap().get("id").unwrap().as_i64(), Some(8));
}

#[test]
fn an_issue_is_sent_with_the_ids_of_its_labels() {
    let r = issue_request(
        &gitea(),
        "T".to_string(),
        "B".to_string(),
        &strings(&["urgent", "?", "bug"]),
        &map(),
    );
    assert_eq!(r.method, Method::Post);
    assert_eq!(r.url, ISSUES);
    assert_eq!(
        r.payload,
        Some(
            Json::empty_object()
                .with_field("title", Json::text("T"))
                .with_field("body", Json::text("B"))
                .with_field("labels", Json::integers(&vec![9, 3])),
        ),
    );
}

#[test]
fn others_choose_no_labels() {
    let (_, state) = gitea_create_ticket(gitea(), &token("STUDENT"), create(&["bug"], None));
    let (second, _) = sent(state.step(reply(200, LABELS)));
    let payload = second.payload.unwrap();
    assert_eq!(payload.get("labels"), Some(&Json::array(vec![])));
    assert_eq!(payload.get("body").unwrap().as_str(), Some("B"));
}

#[test]
fn missing_labels_do_not_stop_a_ticket() {
    for outcome in [Outcome::Unsent, reply(500, "oops")] {
        let (_, state) = gitea_create_ticket(gitea(), &token("ADMIN"), create(&["bug"], None));
        let (second, _) = sent(state.step(outcome));
        assert_eq!(second.payload.unwrap().get("labels"), Some(&Json::array(vec![])));
    }
}

#[test]
fn a_ticket_that_gitea_refuses_is_reported() {
    let (_, state) = gitea_create_ticket(gitea(), &token("ADMIN"), create(&[], None));
    let (_, state) = sent(state.step(Outcome::Unsent));
    let resp = done(state.step(reply(403, "no"))).unwrap();
    assert!(!resp.r);
    assert_eq!(resp.e, Some("Gitea error 403 Forbidden: no".to_string()));
    let (_, state) = gitea_create_ticket(gitea(), &token("ADMIN"), create(&[], None));
    let (_, state) = sent(state.step(Outcome::Unsent));
    assert_eq!(done(state.step(Outcome::Unsent)), Err(Status::InternalServerError));
}

#[test]
fn the_submitter_of_a_ticket_is_shown() {
    for (name, login, body) in [
        ("王五", "王五", "正文"),
        ("a\nb", "a", "b\n\n  正文"),
        (" a ", " a ", "正文"),
    ] {
        let written = submitted_body_text("  正文", &Some(name.to_string()));
        let shown = credit_submitter(
            Json::empty_object()
                .with_field("user", Json::empty_object())
                .with_field("body", Json::text(&written)),
        );
        assert_eq!(shown.get("user").unwrap().get("login").unwrap().as_str(), Some(login));
        assert_eq!(shown.get("body").unwrap().as_str(), Some(body));
    }
    let written = submitted_body_text("正文", &Some(String::new()));
    let ticket = || Json::empty_object().with_field("body", Json::text(&written));
    assert_eq!(credit_submitter(ticket()), ticket());
}

#[test]
fn only_open_tickets_take_comments() {
    assert!(accepts_comments(&parse_json(r#"{"state": "open"}"#).unwrap()));
    for text in [r#"{"state": "closed"}"#, r#"{"state": null}"#, "{}", "[]", "\"open\""] {
        assert!(!accepts_comments(&parse_json(text).unwrap()), "{}", text);
    }
}

#[test]
fn a_comment_is_sent_to_an_open_ticket() {
    let (first, state) = gitea_add_comment(gitea(), "7".to_string(), comment(Some("王五")));
    assert_eq!(first, request(Method::Get, &format!("{ISSUES}/7"), None));
    let (second, state) = sent(state.step(reply(404, r#"{"state": "open"}"#)));
    assert_eq!(
        second,
        request(
            Method::Post,
            &format!("{ISSUES}/7/comments"),
            Some(r#"{"body": "> 王五 \n\nB"}"#),
        ),
    );
    let resp = done(state.step(reply(201, "{\"id\": 5}"))).unwrap();
    assert_eq!(resp.d.unwrap().get("id").unwrap().as_i64(), Some(5));
}

#[test]
fn a_closed_ticket_gets_no_comment() {
    let (_, state) = gitea_add_comment(gitea(), "7".to_string(), comment(None));
    let resp = done(state.step(reply(200, r#"{"state": "closed"}"#))).unwrap();
    assert!(!resp.r);
    assert_eq!(resp.e, Some("Closed tickets do not accept comments".to_string()));
    assert_eq!(resp.hty_err, None);
    let issue = parse_json("{}").unwrap();
    let step = add_comment_to(&gitea(), "7", "B".to_string(), &issue);
    assert!(!done(step).unwrap().r);
    let step = add_comment_to_document(&gitea(), "7", "B".to_string(), None);
    assert_eq!(done(step), Err(Status::InternalServerError));
    let open = parse_json(r#"{"state": "open"}"#);
    let (r, _) = sent(add_comment_to_document(&gitea(), "7", "B".to_string(), open));
    assert_eq!(r.url, format!("{ISSUES}/7/comments"));
}

#[test]
fn a_ticket_that_cannot_be_had_gets_no_comment() {
    let unread = Outcome::Reply { status: 200, body: None };
    for outcome in [Outcome::Unsent, unread, reply(200, "oops")] {
        let (_, state) = gitea_add_comment(gitea(), "7".to_string(), comment(None));
        assert_eq!(done(state.step(outcome)), Err(Status::InternalServerError));
    }
    let sent_comment = AddComment::Comment;
    assert_eq!(done(sent_comment.step(Outcome::Unsent)), Err(Status::InternalServerError));
}

#[test]
fn a_series_stops_at_a_required_request() {
    let change = |n: &str, required| Change { request: request(Method::Get, n, None), required };
    let all = || vec![change("a", false), change("b", true), change("c", false)];
    let (r, state) = sent(Series::start(all()));
    assert_eq!(r.url, "a");
    let (r, state) = sent(state.step(Outcome::Unsent));
    assert_eq!(r.url, "b");
    assert_eq!(done(state.step(Outcome::Unsent)), Err(Status::InternalServerError));
    let (_, state) = sent(Series::start(all()));
    let (_, state) = sent(state.step(reply(500, "")));
    let (r, state) = sent(state.step(reply(500, "")));
    assert_eq!(r.url, "c");
    assert_eq!(done(state.step(Outcome::Unsent)), Ok(()));
    assert_eq!(done(Series::start(vec![])), Ok(()));
}

#[test]
fn updates_change_the_state_then_the_labels() {
    let changes = changes_of_update(
        &gitea(),
        "7",
        &update(Some("closed"), &["bug", "?"], &["urgent", "?", "bug"]),
        &map(),
    );
    let seen: Vec<(Request, bool)> =
        changes.into_iter().map(|c| (c.request, c.required)).collect();
    assert_eq!(
        seen,
        vec![
            (
                request(Method::Patch, &format!("{ISSUES}/7"), Some(r#"{"state": "closed"}"#)),
                true,
            ),
            (
                request(Method::Post, &format!("{ISSUES}/7/labels"), Some(r#"{"labels": [3]}"#)),
                true,
            ),
            (request(Method::Delete, &format!("{ISSUES}/7/labels/9"), None), false),
            (request(Method::Delete, &format!("{ISSUES}/7/labels/3"), None), false),
        ],
    );
}

#[test]
fn unknown_labels_are_not_added() {
    let req = update(None, &["?"], &["?"]);
    assert!(changes_of_update(&gitea(), "7", &req, &map()).is_empty());
    assert!(changes_of_update(&gitea(), "7", &update(None, &[], &[]), &map()).is_empty());
}

#[test]
fn closing_removes_the_progress_label() {
    let changes = changes_of_close(&gitea(), "7", &map());
    assert_eq!(changes.len(), 1);
    assert!(changes[0].required);
    let mut known = map();
    known.insert("in_progress".to_string(), 4);
    let changes = changes_of_close(&gitea(), "7", &known);
    assert_eq!(changes.len(), 2);
    assert_eq!(
        changes[1].request,
        request(Method::Delete, &format!("{ISSUES}/7/labels/4"), None),
    );
    assert!(!changes[1].required);
}

#[test]
fn others_may_not_update_tickets() {
    let step = gitea_update_ticket(
        gitea(),
        "7".to_string(),
        &token("STUDENT"),
        update(Some("closed"), &[], &[]),
    );
    let (status, resp) = done(step).unwrap();
    assert_eq!(status, Status::Forbidden);
    assert!(!resp.r);
    assert_eq!(resp.d, None);
    let reason = Some("Only system administrators can update tickets".to_string());
    assert_eq!(resp.e, reason);
    let err = resp.hty_err.unwrap();
    assert_eq!(err.code, HtyErrCode::AuthenticationFailed);
    assert_eq!(err.reason, reason);
}

#[test]
fn an_update_makes_its_changes() {
    let start = || {
        gitea_update_ticket(
            gitea(),
            "7".to_string(),
            &token("TESTER"),
            update(Some("open"), &["bug"], &["urgent", "in_progress"]),
        )
    };
    let urls = |requests: Vec<Request>| -> Vec<String> {
        requests.into_iter().map(|r| r.url).collect()
    };
    let all = vec![
        "http://g/repos/weli/tickets/labels".to_string(),
        format!("{ISSUES}/7"),
        format!("{ISSUES}/7/labels"),
        format!("{ISSUES}/7/labels/9"),
        format!("{ISSUES}/7/labels/4"),
    ];
    let (requests, r) = run_update(
        start(),
        vec![
            reply(200, LABELS),
            reply(500, "no"),
            reply(404, "no"),
            Outcome::Unsent,
            Outcome::Unsent,
        ],
    );
    assert_eq!(urls(requests), all);
    let (status, resp) = r.unwrap();
    assert_eq!(status, Status::Success);
    assert!(resp.r);
    assert_eq!(resp.d, Some(Json::empty_object().with_field("ok", Json::Bool(true))));
    let (requests, r) = run_update(start(), vec![reply(200, LABELS), Outcome::Unsent]);
    assert_eq!(urls(requests), all[..2].to_vec());
    assert_eq!(r, Err(Status::InternalServerError));
    let (requests, r) =
        run_update(start(), vec![reply(200, LABELS), reply(200, ""), Outcome::Unsent]);
    assert_eq!(urls(requests), all[..3].to_vec());
    assert_eq!(r, Err(Status::InternalServerError));
}

#[test]
fn an_update_without_labels_still_changes_the_state() {
    let step = gitea_update_ticket(
        gitea(),
        "7".to_string(),
        &token("ROOT"),
        update(Some("closed"), &["bug"], &["bug"]),
    );
    let (requests, r) = run_update(step, vec![Outcome::Unsent, reply(200, "{}")]);
    assert_eq!(requests.len(), 2);
    assert_eq!(requests[1].method, Method::Patch);
    assert!(r.is_ok());
}

#[test]
fn an_empty_update_only_asks_for_the_labels() {
    let step =
        gitea_update_ticket(gitea(), "7".to_string(), &token("ROOT"), update(None, &[], &[]));
    let (requests, r) = run_update(step, vec![reply(200, LABELS)]);
    assert_eq!(requests, vec![labels_request()]);
    assert_eq!(r.unwrap().0, Status::Success);
}

#[test]
fn others_may_not_close_tickets() {
    let resp =
        done(gitea_close_ticket(gitea(), "7".to_string(), &token("STUDENT"))).unwrap();
    assert!(!resp.r);
    assert_eq!(resp.e, Some("Only system administrators can close tickets".to_string()));
    assert_eq!(resp.hty_err.unwrap().code, HtyErrCode::AuthenticationFailed);
}

#[test]
fn closing_a_ticket_makes_its_changes() {
    let start = || gitea_close_ticket(gitea(), "7".to_string(), &token("ADMIN"));
    let closed = request(Method::Patch, &format!("{ISSUES}/7"), Some(r#"{"state": "closed"}"#));
    let removed = request(Method::Delete, &format!("{ISSUES}/7/labels/4"), None);
    let (requests, r) =
        run_close(start(), vec![reply(200, LABELS), reply(500, ""), Outcome::Unsent]);
    assert_eq!(requests[0], labels_request());
    assert_eq!(requests[1], closed);
    assert_eq!(requests[2], removed);
    assert_eq!(requests.len(), 3);
    let d = r.unwrap().d;
    assert_eq!(d, Some(Json::empty_object().with_field("ok", Json::Bool(true))));
    let (requests, r) = run_close(start(), vec![reply(200, LABELS), Outcome::Unsent]);
    assert_eq!(requests.len(), 2);
    assert_eq!(r, Err(Status::InternalServerError));
    let (requests, r) = run_close(start(), vec![Outcome::Unsent, reply(200, "")]);
    assert_eq!(requests.len(), 2);
    assert!(r.is_ok());
}
