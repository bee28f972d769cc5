//! Changing tickets: new tickets, comments, labels and states.
use vstd::prelude::*;

use crate::access::{admin_or_tester, is_admin_or_tester, HtyToken};
use crate::decode::{json_of, parse_json};
use crate::gitea::{
    gitea_error, gitea_error_text, reply_text, success, Gitea, GiteaView, Method, Outcome,
    OutcomeView, Request, RequestView, Step, StepView,
};
use crate::json::{field, int_view, text_field, Json, JsonView};
use crate::labels::{ids_of, known_labels, label_names_to_ids, labels_or_none, LabelMap};
use crate::response::{
    answer, failed_resp, failed_view, forbidden_resp, forbidden_view, ok_view, wrap_ok_resp,
    HtyErrCode, HtyResponse, HtyResponseView, Status,
};
use crate::text::{
    before, decimal, lemma_position, lemma_position_is, position, same_text, trimmed_start, white_space,
};
use crate::tickets::{credited, submitter_mark};

verus! {

/// A new ticket.
#[derive(Debug, Clone)]
pub struct CreateTicketReq {
    pub title: String,
    pub body: String,
    pub labels: Vec<String>,
    pub submitter_name: Option<String>,
}

/// A change of a ticket: a new state, labels to add and labels to remove.
#[derive(Debug, Clone)]
pub struct UpdateTicketReq {
    pub state: Option<String>,
    pub labels: Vec<String>,
    pub unlabels: Vec<String>,
}

/// A new comment.
#[derive(Debug, Clone)]
pub struct AddCommentReq {
    pub body: String,
    pub submitter_name: Option<String>,
}

/// What a step towards an answer says.
pub open spec fn step_view<S: View>(
    step: Step<S, Result<HtyResponse<Json>, Status>>,
) -> StepView<S::V, Result<HtyResponseView<JsonView>, Status>> {
    match step {
        Step::Send(request, next) => StepView::Send(request@, next@),
        Step::Done(resp) => StepView::Done(answer(resp)),
    }
}

/// A ticket's body with the line that names its submitter.
pub open spec fn submitted_body(body: Seq<char>, submitter_name: Option<Seq<char>>) -> Seq<char> {
    match submitter_name {
        Some(name) => "> 提交者: "@ + name + "\n\n"@ + body,
        None => body,
    }
}

/// A comment's body with the line that names its submitter.
pub open spec fn comment_body(body: Seq<char>, submitter_name: Option<Seq<char>>) -> Seq<char> {
    match submitter_name {
        Some(name) => "> "@ + name + " \n\n"@ + body,
        None => body,
    }
}

/// A list of label ids as a document.
pub open spec fn ids_data(ids: Seq<i64>) -> JsonView {
    JsonView::Array(ids.map_values(|n: i64| int_view(n as int)))
}

/// A new issue as a document.
pub open spec fn issue_data(title: Seq<char>, body: Seq<char>, ids: Seq<i64>) -> JsonView {
    JsonView::Object(
        Map::empty().insert("title"@, JsonView::Str(title)).insert(
            "body"@,
            JsonView::Str(body),
        ).insert("labels"@, ids_data(ids)),
    )
}

/// A new comment as a document.
pub open spec fn comment_data(body: Seq<char>) -> JsonView {
    JsonView::Object(Map::empty().insert("body"@, JsonView::Str(body)))
}

/// A new state as a document.
pub open spec fn state_data(state: Seq<char>) -> JsonView {
    JsonView::Object(Map::empty().insert("state"@, JsonView::Str(state)))
}

/// Labels to add as a document.
pub open spec fn labels_data(ids: Seq<i64>) -> JsonView {
    JsonView::Object(Map::empty().insert("labels"@, ids_data(ids)))
}

/// The data of an answer that only reports success.
pub open spec fn done_data() -> JsonView {
    JsonView::Object(Map::empty().insert("ok"@, JsonView::Bool(true)))
}

/// The answer that hands Gitea's reply on: its data, `null` where that is not JSON, or its error.
pub open spec fn forwarded(status: u16, text: Seq<char>, data: Option<JsonView>) -> HtyResponseView<
    JsonView,
> {
    if success(status) {
        ok_view(
            match data {
                Some(d) => d,
                None => JsonView::Null,
            },
        )
    } else {
        failed_view(gitea_error(status, text))
    }
}

/// The answer that hands on the outcome of a request.
pub open spec fn forwarded_answer(outcome: OutcomeView) -> Result<
    HtyResponseView<JsonView>,
    Status,
> {
    match outcome {
        OutcomeView::Reply { status, body: Some(text) } => Ok(
            forwarded(status, text, json_of(text)),
        ),
        _ => Err(Status::InternalServerError),
    }
}

/// A ticket in the making: first the labels are asked for, then the issue is sent.
#[derive(Debug)]
pub enum CreateTicket {
    Labels { gitea: Gitea, title: String, body: String, labels: Vec<String> },
    Issue,
}

/// What a `CreateTicket` says.
pub enum CreateTicketView {
    Labels { gitea: GiteaView, title: Seq<char>, body: Seq<char>, labels: Seq<Seq<char>> },
    Issue,
}

impl View for CreateTicket {
    type V = CreateTicketView;

    open spec fn view(&self) -> CreateTicketView {
        match self {
            CreateTicket::Labels { gitea, title, body, labels } => CreateTicketView::Labels {
                gitea: gitea@,
                title: title@,
                body: body@,
                labels: labels.deep_view(),
            },
            CreateTicket::Issue => CreateTicketView::Issue,
        }
    }
}

/// The first step of making a ticket. Only administrators and testers choose labels.
pub open spec fn create_start(gitea: GiteaView, token: HtyToken, req: CreateTicketReq) -> (
    RequestView,
    CreateTicketView,
) {
    (
        gitea.labels_request(),
        CreateTicketView::Labels {
            gitea,
            title: req.title@,
            body: submitted_body(req.body@, req.submitter_name.deep_view()),
            labels: if admin_or_tester(token) {
                req.labels.deep_view()
            } else {
                Seq::empty()
            },
        },
    )
}

/// The next step of making a ticket. Labels that Gitea does not know are left out.
pub open spec fn create_next(state: CreateTicketView, outcome: OutcomeView) -> StepView<
    CreateTicketView,
    Result<HtyResponseView<JsonView>, Status>,
> {
    match state {
        CreateTicketView::Labels { gitea, title, body, labels } => StepView::Send(
            gitea.request(
                Method::Post,
                gitea.issues_url(),
                Some(issue_data(title, body, ids_of(labels, known_labels(outcome)))),
            ),
            CreateTicketView::Issue,
        ),
        CreateTicketView::Issue => StepView::Done(forwarded_answer(outcome)),
    }
}

/// Writes a ticket's body with the line that names its submitter.
pub fn submitted_body_text(body: &str, submitter_name: &Option<String>) -> (t: String)
    ensures
        t@ == submitted_body(body@, submitter_name.deep_view()),
{
    match submitter_name {
        Some(name) => "> 提交者: ".to_owned().concat(name.as_str()).concat("\n\n").concat(body),
        None => body.to_owned(),
    }
}

/// Writes a comment's body with the line that names its submitter.
pub fn comment_body_text(body: &str, submitter_name: &Option<String>) -> (t: String)
    ensures
        t@ == comment_body(body@, submitter_name.deep_view()),
{
    match submitter_name {
        Some(name) => "> ".to_owned().concat(name.as_str()).concat(" \n\n").concat(body),
        None => body.to_owned(),
    }
}

/// Hands Gitea's reply on.
pub fn forward(status: u16, text: &str, data: Option<Json>) -> (resp: HtyResponse<Json>)
    ensures
        resp.deep_view() == forwarded(status, text@, data.deep_view()),
{
    if status < 200 || status >= 300 {
        failed_resp(gitea_error_text(status, text))
    } else {
        match data {
            Some(d) => wrap_ok_resp(d),
            None => wrap_ok_resp(Json::Null),
        }
    }
}

/// Hands the outcome of a request on.
pub fn forward_outcome(outcome: Outcome) -> (resp: Result<HtyResponse<Json>, Status>)
    ensures
        answer(resp) == forwarded_answer(outcome@),
{
    match outcome {
        Outcome::Reply { status, body: Some(text) } => {
            let data = parse_json(text.as_str());
            Ok(forward(status, text.as_str(), data))
        },
        _ => Err(Status::InternalServerError),
    }
}

/// The request that makes an issue, now that the labels are known.
pub fn issue_request(
    gitea: &Gitea,
    title: String,
    body: String,
    labels: &Vec<String>,
    map: &LabelMap,
) -> (r: Request)
    ensures
        r@ == gitea@.request(
            Method::Post,
            gitea@.issues_url(),
            Some(issue_data(title@, body@, ids_of(labels.deep_view(), map@))),
        ),
{
    let ids = label_names_to_ids(labels.as_slice(), map);
    let payload = Json::empty_object().with_field("title", Json::Str(title)).with_field(
        "body",
        Json::Str(body),
    ).with_field("labels", Json::integers(&ids));
    gitea.request(Method::Post, gitea.issues_url(), Some(payload))
}

/// Starts a ticket: asks for the labels first.
pub fn gitea_create_ticket(gitea: Gitea, token: &HtyToken, req: CreateTicketReq) -> (started: (
    Request,
    CreateTicket,
))
    ensures
        (started.0@, started.1@) == create_start(gitea@, *token, req),
{
    let request = gitea.labels_request();
    let body = submitted_body_text(req.body.as_str(), &req.submitter_name);
    let labels: Vec<String> = if is_admin_or_tester(token) {
        req.labels
    } else {
        Vec::new()
    };
    assert(!admin_or_tester(*token) ==> labels.deep_view() =~= Seq::<Seq<char>>::empty());
    (request, CreateTicket::Labels { gitea, title: req.title, body, labels })
}

impl CreateTicket {
    /// Goes on, now that the outcome of the last request is known.
    pub fn step(self, outcome: Outcome) -> (step: Step<
        CreateTicket,
        Result<HtyResponse<Json>, Status>,
    >)
        ensures
            step_view(step) == create_next(self@, outcome@),
    {
        match self {
            CreateTicket::Labels { gitea, title, body, labels } => {
                let map = labels_or_none(outcome);
                Step::Send(
                    issue_request(&gitea, title, body, &labels, &map),
                    CreateTicket::Issue,
                )
            },
            CreateTicket::Issue => Step::Done(forward_outcome(outcome)),
        }
    }
}

/// A comment in the making: first the issue is asked for, then the comment is sent.
#[derive(Debug)]
pub enum AddComment {
    Issue { gitea: Gitea, id: String, body: String },
    Comment,
}

/// What an `AddComment` says.
pub enum AddCommentView {
    Issue { gitea: GiteaView, id: Seq<char>, body: Seq<char> },
    Comment,
}

impl View for AddComment {
    type V = AddCommentView;

    open spec fn view(&self) -> AddCommentView {
        match self {
            AddComment::Issue { gitea, id, body } => AddCommentView::Issue {
                gitea: gitea@,
                id: id@,
                body: body@,
            },
            AddComment::Comment => AddCommentView::Comment,
        }
    }
}

/// Whether an issue takes comments: only an open one does.
pub open spec fn takes_comments(issue: JsonView) -> bool {
    text_field(issue, "state"@) == Some("open"@)
}

/// The first step of a comment.
pub open spec fn comment_start(gitea: GiteaView, id: Seq<char>, req: AddCommentReq) -> (
    RequestView,
    AddCommentView,
) {
    (
        gitea.request(Method::Get, gitea.issue_url(id), None),
        AddCommentView::Issue {
            gitea,
            id,
            body: comment_body(req.body@, req.submitter_name.deep_view()),
        },
    )
}

/// The step that follows once the issue is known.
pub open spec fn comment_on(
    gitea: GiteaView,
    id: Seq<char>,
    body: Seq<char>,
    issue: JsonView,
) -> StepView<AddCommentView, Result<HtyResponseView<JsonView>, Status>> {
    if takes_comments(issue) {
        StepView::Send(
            gitea.request(Method::Post, gitea.comments_url(id), Some(comment_data(body))),
            AddCommentView::Comment,
        )
    } else {
        StepView::Done(Ok(failed_view("Closed tickets do not accept comments"@)))
    }
}

/// The step that follows once the document of the issue came, where one did.
pub open spec fn comment_on_document(
    gitea: GiteaView,
    id: Seq<char>,
    body: Seq<char>,
    document: Option<JsonView>,
) -> StepView<AddCommentView, Result<HtyResponseView<JsonView>, Status>> {
    match document {
        Some(issue) => comment_on(gitea, id, body, issue),
        None => StepView::Done(Err(Status::InternalServerError)),
    }
}

/// The next step of a comment.
pub open spec fn comment_next(state: AddCommentView, outcome: OutcomeView) -> StepView<
    AddCommentView,
    Result<HtyResponseView<JsonView>, Status>,
> {
    match state {
        AddCommentView::Issue { gitea, id, body } => match reply_text(outcome) {
            Some(text) => comment_on_document(gitea, id, body, json_of(text)),
            None => StepView::Done(Err(Status::InternalServerError)),
        },
        AddCommentView::Comment => StepView::Done(forwarded_answer(outcome)),
    }
}

/// Starts a comment: asks for the issue first.
pub fn gitea_add_comment(gitea: Gitea, id: String, req: AddCommentReq) -> (started: (
    Request,
    AddComment,
))
    ensures
        (started.0@, started.1@) == comment_start(gitea@, id@, req),
{
    let request = gitea.request(Method::Get, gitea.issue_url(id.as_str()), None);
    let body = comment_body_text(req.body.as_str(), &req.submitter_name);
    (request, AddComment::Issue { gitea, id, body })
}

/// Whether an issue takes comments.
pub fn accepts_comments(issue: &Json) -> (yes: bool)
    ensures
        yes == takes_comments(issue@),
{
    match issue.get("state") {
        Some(state) => match state.as_str() {
            Some(state) => same_text(state, "open"),
            None => false,
        },
        None => false,
    }
}

/// Comments on an issue, where it takes comments.
pub fn add_comment_to(gitea: &Gitea, id: &str, body: String, issue: &Json) -> (step: Step<
    AddComment,
    Result<HtyResponse<Json>, Status>,
>)
    ensures
        step_view(step) == comment_on(gitea@, id@, body@, issue@),
{
    if accepts_comments(issue) {
        let payload = Json::empty_object().with_field("body", Json::Str(body));
        Step::Send(
            gitea.request(Method::Post, gitea.comments_url(id), Some(payload)),
            AddComment::Comment,
        )
    } else {
        Step::Done(Ok(failed_resp("Closed tickets do not accept comments".to_owned())))
    }
}

/// Comments on the issue of a document, where there is one and it takes comments.
pub fn add_comment_to_document(
    gitea: &Gitea,
    id: &str,
    body: String,
    document: Option<Json>,
) -> (step: Step<AddComment, Result<HtyResponse<Json>, Status>>)
    ensures
        step_view(step) == comment_on_document(gitea@, id@, body@, document.deep_view()),
{
    match document {
        Some(issue) => add_comment_to(gitea, id, body, &issue),
        None => Step::Done(Err(Status::InternalServerError)),
    }
}

impl AddComment {
    /// Goes on, now that the outcome of the last request is known.
    pub fn step(self, outcome: Outcome) -> (step: Step<
        AddComment,
        Result<HtyResponse<Json>, Status>,
    >)
        ensures
            step_view(step) == comment_next(self@, outcome@),
    {
        match self {
            AddComment::Issue { gitea, id, body } => match outcome {
                Outcome::Reply { body: Some(text), .. } => add_comment_to_document(
                    &gitea,
                    id.as_str(),
                    body,
                    parse_json(text.as_str()),
                ),
                _ => Step::Done(Err(Status::InternalServerError)),
            },
            AddComment::Comment => Step::Done(forward_outcome(outcome)),
        }
    }
}

/// A request of a series. Where it is `required`, the series ends if it cannot be sent; otherwise
/// the series goes on whatever becomes of it.
#[derive(Debug)]
pub struct Change {
    pub request: Request,
    pub required: bool,
}

/// What a `Change` says.
pub struct ChangeView {
    pub request: RequestView,
    pub required: bool,
}

impl View for Change {
    type V = ChangeView;

    open spec fn view(&self) -> ChangeView {
        ChangeView { request: self.request@, required: self.required }
    }
}

/// What a list of changes says.
pub open spec fn change_views(changes: Seq<Change>) -> Seq<ChangeView> {
    changes.map_values(|c: Change| c@)
}

/// A series of changes under way: whether the one that was sent is required, and those to come.
#[derive(Debug)]
pub struct Series {
    pub required: bool,
    pub rest: Vec<Change>,
}

/// What a `Series` says.
pub struct SeriesView {
    pub required: bool,
    pub rest: Seq<ChangeView>,
}

impl View for Series {
    type V = SeriesView;

    open spec fn view(&self) -> SeriesView {
        SeriesView { required: self.required, rest: change_views(self.rest@) }
    }
}

/// What a step of a series says.
pub open spec fn series_step(step: Step<Series, Result<(), Status>>) -> StepView<
    SeriesView,
    Result<(), Status>,
> {
    match step {
        Step::Send(request, next) => StepView::Send(request@, next@),
        Step::Done(r) => StepView::Done(r),
    }
}

/// The first step of a series: its first request, or the end where there is none.
pub open spec fn series_start(changes: Seq<ChangeView>) -> StepView<
    SeriesView,
    Result<(), Status>,
> {
    if changes.len() == 0 {
        StepView::Done(Ok(()))
    } else {
        StepView::Send(
            changes[0].request,
            SeriesView { required: changes[0].required, rest: changes.skip(1) },
        )
    }
}

/// The next step of a series. What Gitea replies does not count.
pub open spec fn series_next(state: SeriesView, outcome: OutcomeView) -> StepView<
    SeriesView,
    Result<(), Status>,
> {
    if outcome is Unsent && state.required {
        StepView::Done(Err(Status::InternalServerError))
    } else {
        series_start(state.rest)
    }
}

impl Series {
    /// Starts a series.
    pub fn start(changes: Vec<Change>) -> (step: Step<Series, Result<(), Status>>)
        ensures
            series_step(step) == series_start(change_views(changes@)),
    {
        if changes.len() == 0 {
            Step::Done(Ok(()))
        } else {
            let ghost views = change_views(changes@);
            let mut rest = changes;
            let first = rest.remove(0);
            assert(change_views(rest@) =~= views.skip(1));
            Step::Send(first.request, Series { required: first.required, rest })
        }
    }

    /// Goes on, now that the outcome of the last request is known.
    pub fn step(self, outcome: Outcome) -> (step: Step<Series, Result<(), Status>>)
        ensures
            series_step(step) == series_next(self@, outcome@),
    {
        match outcome {
            Outcome::Unsent => {
                if self.required {
                    return Step::Done(Err(Status::InternalServerError));
                }
            },
            _ => {},
        }
        Series::start(self.rest)
    }
}

/// The removal of labels from an issue, one request for each.
pub open spec fn removals(gitea: GiteaView, id: Seq<char>, ids: Seq<i64>) -> Seq<ChangeView> {
    ids.map_values(
        |label: i64|
            ChangeView {
                request: gitea.request(Method::Delete, gitea.issue_label_url(id, label), None),
                required: false,
            },
    )
}

/// A change of the state of an issue.
pub open spec fn state_change(gitea: GiteaView, id: Seq<char>, state: Seq<char>) -> ChangeView {
    ChangeView {
        request: gitea.request(Method::Patch, gitea.issue_url(id), Some(state_data(state))),
        required: true,
    }
}

/// The addition of labels to an issue.
pub open spec fn addition(gitea: GiteaView, id: Seq<char>, ids: Seq<i64>) -> ChangeView {
    ChangeView {
        request: gitea.request(Method::Post, gitea.issue_labels_url(id), Some(labels_data(ids))),
        required: true,
    }
}

/// The changes that an update asks for, in their order: the state, the labels to add, the labels to
/// remove. Labels that Gitea does not know are left out.
pub open spec fn update_changes(
    gitea: GiteaView,
    id: Seq<char>,
    req: UpdateTicketReq,
    map: Map<Seq<char>, i64>,
) -> Seq<ChangeView> {
    let state = match req.state {
        Some(state) => seq![state_change(gitea, id, state@)],
        None => Seq::empty(),
    };
    let added = ids_of(req.labels.deep_view(), map);
    let addition = if added.len() > 0 {
        seq![addition(gitea, id, added)]
    } else {
        Seq::empty()
    };
    state + addition + removals(gitea, id, ids_of(req.unlabels.deep_view(), map))
}

/// The changes that close an issue: its state, and the label `in_progress` is removed.
pub open spec fn close_changes(
    gitea: GiteaView,
    id: Seq<char>,
    map: Map<Seq<char>, i64>,
) -> Seq<ChangeView> {
    seq![state_change(gitea, id, "closed"@)] + removals(
        gitea,
        id,
        ids_of(seq!["in_progress"@], map),
    )
}

/// The requests that remove labels from an issue.
fn push_removals(changes: &mut Vec<Change>, gitea: &Gitea, id: &str, ids: &Vec<i64>)
    ensures
        change_views(final(changes)@) == change_views(old(changes)@) + removals(
            gitea@,
            id@,
            ids@,
        ),
{
    let ghost earlier = change_views(changes@);
    let ghost all = removals(gitea@, id@, ids@);
    assert(change_views(changes@) =~= earlier + all.take(0));
    for i in 0..ids.len()
        invariant
            all == removals(gitea@, id@, ids@),
            change_views(changes@) == earlier + all.take(i as int),
    {
        let ghost before = change_views(changes@);
        let request = gitea.request(Method::Delete, gitea.issue_label_url(id, ids[i]), None);
        let change = Change { request, required: false };
        assert(all[i as int] == change@);
        changes.push(change);
        assert(change_views(changes@) =~= before.push(change@));
        assert(change_views(changes@) =~= earlier + all.take(i + 1));
    }
    assert(all.take(all.len() as int) =~= all);
}

/// The request that changes the state of an issue.
fn state_change_of(gitea: &Gitea, id: &str, state: &str) -> (change: Change)
    ensures
        change@ == state_change(gitea@, id@, state@),
{
    let payload = Json::empty_object().with_field("state", Json::text(state));
    Change {
        request: gitea.request(Method::Patch, gitea.issue_url(id), Some(payload)),
        required: true,
    }
}

/// The requests that an update asks for.
pub fn changes_of_update(
    gitea: &Gitea,
    id: &str,
    req: &UpdateTicketReq,
    map: &LabelMap,
) -> (changes: Vec<Change>)
    ensures
        change_views(changes@) == update_changes(gitea@, id@, *req, map@),
{
    let mut changes: Vec<Change> = Vec::new();
    if let Some(state) = &req.state {
        changes.push(state_change_of(gitea, id, state.as_str()));
        assert(change_views(changes@) =~= seq![state_change(gitea@, id@, state@)]);
    }
    let ghost state = change_views(changes@);
    assert(req.state is None ==> state =~= Seq::<ChangeView>::empty());
    let added = label_names_to_ids(req.labels.as_slice(), map);
    if added.len() > 0 {
        let payload = Json::empty_object().with_field("labels", Json::integers(&added));
        let change = Change {
            request: gitea.request(Method::Post, gitea.issue_labels_url(id), Some(payload)),
            required: true,
        };
        changes.push(change);
        assert(change_views(changes@) =~= state + seq![change@]);
    } else {
        assert(change_views(changes@) =~= state + Seq::<ChangeView>::empty());
    }
    let removed = label_names_to_ids(req.unlabels.as_slice(), map);
    push_removals(&mut changes, gitea, id, &removed);
    changes
}

/// The requests that close an issue.
pub fn changes_of_close(gitea: &Gitea, id: &str, map: &LabelMap) -> (changes: Vec<Change>)
    ensures
        change_views(changes@) == close_changes(gitea@, id@, map@),
{
    let mut changes: Vec<Change> = Vec::new();
    changes.push(state_change_of(gitea, id, "closed"));
    assert(change_views(changes@) =~= seq![state_change(gitea@, id@, "closed"@)]);
    let mut names: Vec<String> = Vec::new();
    names.push("in_progress".to_owned());
    assert(names.deep_view() =~= seq!["in_progress"@]);
    let removed = label_names_to_ids(names.as_slice(), map);
    push_removals(&mut changes, gitea, id, &removed);
    changes
}

/// An update under way: first the labels are asked for, then the changes are sent.
#[derive(Debug)]
pub enum UpdateTicket {
    Labels { gitea: Gitea, id: String, req: UpdateTicketReq },
    Changes(Series),
}

/// What an `UpdateTicket` says.
pub enum UpdateTicketView {
    Labels { gitea: GiteaView, id: Seq<char>, req: UpdateTicketReq },
    Changes(SeriesView),
}

impl View for UpdateTicket {
    type V = UpdateTicketView;

    open spec fn view(&self) -> UpdateTicketView {
        match self {
            UpdateTicket::Labels { gitea, id, req } => UpdateTicketView::Labels {
                gitea: gitea@,
                id: id@,
                req: *req,
            },
            UpdateTicket::Changes(series) => UpdateTicketView::Changes(series@),
        }
    }
}

/// What an update answers: a status code with data, or a status code alone.
pub open spec fn update_answer(r: Result<(Status, HtyResponse<Json>), Status>) -> Result<
    (Status, HtyResponseView<JsonView>),
    Status,
> {
    match r {
        Ok((status, resp)) => Ok((status, resp.deep_view())),
        Err(status) => Err(status),
    }
}

/// What a step of an update says.
pub open spec fn update_step(
    step: Step<UpdateTicket, Result<(Status, HtyResponse<Json>), Status>>,
) -> StepView<UpdateTicketView, Result<(Status, HtyResponseView<JsonView>), Status>> {
    match step {
        Step::Send(request, next) => StepView::Send(request@, next@),
        Step::Done(resp) => StepView::Done(update_answer(resp)),
    }
}

/// An update after a step of its changes.
pub open spec fn update_after(step: StepView<SeriesView, Result<(), Status>>) -> StepView<
    UpdateTicketView,
    Result<(Status, HtyResponseView<JsonView>), Status>,
> {
    match step {
        StepView::Send(request, series) => StepView::Send(
            request,
            UpdateTicketView::Changes(series),
        ),
        StepView::Done(Ok(_)) => StepView::Done(Ok((Status::Success, ok_view(done_data())))),
        StepView::Done(Err(status)) => StepView::Done(Err(status)),
    }
}

/// The first step of an update. Only administrators and testers may update tickets.
pub open spec fn update_start(
    gitea: GiteaView,
    id: Seq<char>,
    token: HtyToken,
    req: UpdateTicketReq,
) -> StepView<UpdateTicketView, Result<(Status, HtyResponseView<JsonView>), Status>> {
    if admin_or_tester(token) {
        StepView::Send(gitea.labels_request(), UpdateTicketView::Labels { gitea, id, req })
    } else {
        StepView::Done(
            Ok(
                (
                    Status::Forbidden,
                    forbidden_view("Only system administrators can update tickets"@),
                ),
            ),
        )
    }
}

/// The next step of an update.
pub open spec fn update_next(state: UpdateTicketView, outcome: OutcomeView) -> StepView<
    UpdateTicketView,
    Result<(Status, HtyResponseView<JsonView>), Status>,
> {
    match state {
        UpdateTicketView::Labels { gitea, id, req } => update_after(
            series_start(update_changes(gitea, id, req, known_labels(outcome))),
        ),
        UpdateTicketView::Changes(series) => update_after(series_next(series, outcome)),
    }
}

/// Answers that the change was made.
fn done_resp() -> (resp: HtyResponse<Json>)
    ensures
        resp.deep_view() == ok_view(done_data()),
{
    wrap_ok_resp(Json::empty_object().with_field("ok", Json::Bool(true)))
}

/// Starts an update, where the caller may update tickets: asks for the labels first.
pub fn gitea_update_ticket(
    gitea: Gitea,
    id: String,
    token: &HtyToken,
    req: UpdateTicketReq,
) -> (step: Step<UpdateTicket, Result<(Status, HtyResponse<Json>), Status>>)
    ensures
        update_step(step) == update_start(gitea@, id@, *token, req),
{
    if !is_admin_or_tester(token) {
        return Step::Done(
            Ok(
                (
                    Status::Forbidden,
                    forbidden_resp("Only system administrators can update tickets"),
                ),
            ),
        );
    }
    let request = gitea.labels_request();
    Step::Send(request, UpdateTicket::Labels { gitea, id, req })
}

impl UpdateTicket {
    /// Goes on, now that the outcome of the last request is known.
    pub fn step(self, outcome: Outcome) -> (step: Step<
        UpdateTicket,
        Result<(Status, HtyResponse<Json>), Status>,
    >)
        ensures
            update_step(step) == update_next(self@, outcome@),
    {
        let step = match self {
            UpdateTicket::Labels { gitea, id, req } => {
                let map = labels_or_none(outcome);
                Series::start(changes_of_update(&gitea, id.as_str(), &req, &map))
            },
            UpdateTicket::Changes(series) => series.step(outcome),
        };
        match step {
            Step::Send(request, series) => Step::Send(request, UpdateTicket::Changes(series)),
            Step::Done(Ok(_)) => Step::Done(Ok((Status::Success, done_resp()))),
            Step::Done(Err(status)) => Step::Done(Err(status)),
        }
    }
}

/// A ticket being closed: first the labels are asked for, then the changes are sent.
#[derive(Debug)]
pub enum CloseTicket {
    Labels { gitea: Gitea, id: String },
    Changes(Series),
}

/// What a `CloseTicket` says.
pub enum CloseTicketView {
    Labels { gitea: GiteaView, id: Seq<char> },
    Changes(SeriesView),
}

impl View for CloseTicket {
    type V = CloseTicketView;

    open spec fn view(&self) -> CloseTicketView {
        match self {
            CloseTicket::Labels { gitea, id } => CloseTicketView::Labels { gitea: gitea@, id: id@ },
            CloseTicket::Changes(series) => CloseTicketView::Changes(series@),
        }
    }
}

/// A ticket being closed, after a step of its changes.
pub open spec fn close_after(step: StepView<SeriesView, Result<(), Status>>) -> StepView<
    CloseTicketView,
    Result<HtyResponseView<JsonView>, Status>,
> {
    match step {
        StepView::Send(request, series) => StepView::Send(
            request,
            CloseTicketView::Changes(series),
        ),
        StepView::Done(Ok(_)) => StepView::Done(Ok(ok_view(done_data()))),
        StepView::Done(Err(status)) => StepView::Done(Err(status)),
    }
}

/// The first step of closing a ticket. Only administrators and testers may close tickets.
pub open spec fn close_start(gitea: GiteaView, id: Seq<char>, token: HtyToken) -> StepView<
    CloseTicketView,
    Result<HtyResponseView<JsonView>, Status>,
> {
    if admin_or_tester(token) {
        StepView::Send(gitea.labels_request(), CloseTicketView::Labels { gitea, id })
    } else {
        StepView::Done(Ok(forbidden_view("Only system administrators can close tickets"@)))
    }
}

/// The next step of closing a ticket.
pub open spec fn close_next(state: CloseTicketView, outcome: OutcomeView) -> StepView<
    CloseTicketView,
    Result<HtyResponseView<JsonView>, Status>,
> {
    match state {
        CloseTicketView::Labels { gitea, id } => close_after(
            series_start(close_changes(gitea, id, known_labels(outcome))),
        ),
        CloseTicketView::Changes(series) => close_after(series_next(series, outcome)),
    }
}

/// Starts to close a ticket, where the caller may close tickets: asks for the labels first.
pub fn gitea_close_ticket(gitea: Gitea, id: String, token: &HtyToken) -> (step: Step<
    CloseTicket,
    Result<HtyResponse<Json>, Status>,
>)
    ensures
        step_view(step) == close_start(gitea@, id@, *token),
{
    if !is_admin_or_tester(token) {
        return Step::Done(Ok(forbidden_resp("Only system administrators can close tickets")));
    }
    let request = gitea.labels_request();
    Step::Send(request, CloseTicket::Labels { gitea, id })
}

impl CloseTicket {
    /// Goes on, now that the outcome of the last request is known.
    pub fn step(self, outcome: Outcome) -> (step: Step<
        CloseTicket,
        Result<HtyResponse<Json>, Status>,
    >)
        ensures
            step_view(step) == close_next(self@, outcome@),
    {
        let step = match self {
            CloseTicket::Labels { gitea, id } => {
                let map = labels_or_none(outcome);
                Series::start(changes_of_close(&gitea, id.as_str(), &map))
            },
            CloseTicket::Changes(series) => series.step(outcome),
        };
        match step {
            Step::Send(request, series) => Step::Send(request, CloseTicket::Changes(series)),
            Step::Done(Ok(_)) => Step::Done(Ok(done_resp())),
            Step::Done(Err(status)) => Step::Done(Err(status)),
        }
    }
}

/// The requests that a series sends when its requests meet these outcomes in turn, and its result
/// where it comes to one.
pub open spec fn series_run(
    step: StepView<SeriesView, Result<(), Status>>,
    outcomes: Seq<OutcomeView>,
) -> (Seq<RequestView>, Option<Result<(), Status>>)
    decreases outcomes.len(),
{
    match step {
        StepView::Done(r) => (Seq::empty(), Some(r)),
        StepView::Send(request, state) => if outcomes.len() == 0 {
            (seq![request], None)
        } else {
            let (more, r) = series_run(series_next(state, outcomes[0]), outcomes.skip(1));
            (seq![request] + more, r)
        },
    }
}

/// The requests of a series, in their order.
pub open spec fn requests_of(changes: Seq<ChangeView>) -> Seq<RequestView> {
    changes.map_values(|c: ChangeView| c.request)
}

/// The place of the first request that is required and could not be sent, or the number of requests
/// where there is none.
pub open spec fn first_failure(changes: Seq<ChangeView>, outcomes: Seq<OutcomeView>) -> int
    decreases changes.len(),
{
    if changes.len() == 0 || (changes[0].required && outcomes[0] is Unsent) {
        0
    } else {
        1 + first_failure(changes.skip(1), outcomes.skip(1))
    }
}

/// A series sends its requests in their order, without repeating or skipping any. With an outcome
/// for each it comes to a result: where every required request could be sent, all were sent and it
/// succeeded; otherwise it stopped at the first required one that could not be sent.
pub proof fn law_series_sends_in_order(changes: Seq<ChangeView>, outcomes: Seq<OutcomeView>)
    requires
        outcomes.len() >= changes.len(),
    ensures
        0 <= first_failure(changes, outcomes) <= changes.len(),
        series_run(series_start(changes), outcomes) == if first_failure(changes, outcomes)
            < changes.len() {
            (
                requests_of(changes).take(first_failure(changes, outcomes) + 1),
                Some(Err::<(), Status>(Status::InternalServerError)),
            )
        } else {
            (requests_of(changes), Some(Ok(())))
        },
    decreases changes.len(),
{
    let (sent, r) = series_run(series_start(changes), outcomes);
    if changes.len() == 0 {
        assert(sent =~= requests_of(changes));
    } else {
        let rest = changes.skip(1);
        let later = outcomes.skip(1);
        let state = SeriesView { required: changes[0].required, rest };
        let next = series_next(state, outcomes[0]);
        let (more, r1) = series_run(next, later);
        assert(sent == seq![changes[0].request] + more && r == r1);
        if changes[0].required && outcomes[0] is Unsent {
            assert(more =~= Seq::<RequestView>::empty());
            assert(sent =~= requests_of(changes).take(1));
        } else {
            law_series_sends_in_order(rest, later);
            let n = first_failure(rest, later);
            assert(requests_of(rest) =~= requests_of(changes).skip(1));
            if n < rest.len() {
                assert(sent =~= requests_of(changes).take(n + 2));
            } else {
                assert(sent =~= requests_of(changes));
            }
        }
    }
}

/// The requests that an update sends when its requests meet these outcomes in turn, and its result
/// where it comes to one.
pub open spec fn update_run(
    step: StepView<UpdateTicketView, Result<(Status, HtyResponseView<JsonView>), Status>>,
    outcomes: Seq<OutcomeView>,
) -> (Seq<RequestView>, Option<Result<(Status, HtyResponseView<JsonView>), Status>>)
    decreases outcomes.len(),
{
    match step {
        StepView::Done(r) => (Seq::empty(), Some(r)),
        StepView::Send(request, state) => if outcomes.len() == 0 {
            (seq![request], None)
        } else {
            let (more, r) = update_run(update_next(state, outcomes[0]), outcomes.skip(1));
            (seq![request] + more, r)
        },
    }
}

/// The requests that closing a ticket sends when they meet these outcomes in turn, and its result
/// where it comes to one.
pub open spec fn close_run(
    step: StepView<CloseTicketView, Result<HtyResponseView<JsonView>, Status>>,
    outcomes: Seq<OutcomeView>,
) -> (Seq<RequestView>, Option<Result<HtyResponseView<JsonView>, Status>>)
    decreases outcomes.len(),
{
    match step {
        StepView::Done(r) => (Seq::empty(), Some(r)),
        StepView::Send(request, state) => if outcomes.len() == 0 {
            (seq![request], None)
        } else {
            let (more, r) = close_run(close_next(state, outcomes[0]), outcomes.skip(1));
            (seq![request] + more, r)
        },
    }
}

/// Once its labels are known, an update runs as the series of its changes does.
proof fn lemma_update_runs_its_series(
    step: StepView<SeriesView, Result<(), Status>>,
    outcomes: Seq<OutcomeView>,
)
    ensures
        update_run(update_after(step), outcomes).0 == series_run(step, outcomes).0,
        update_run(update_after(step), outcomes).1 == match series_run(step, outcomes).1 {
            None => None,
            Some(Ok(_)) => Some(
                Ok::<(Status, HtyResponseView<JsonView>), Status>(
                    (Status::Success, ok_view(done_data())),
                ),
            ),
            Some(Err(status)) => Some(Err(status)),
        },
    decreases outcomes.len(),
{
    if let StepView::Send(request, state) = step {
        if outcomes.len() > 0 {
            lemma_update_runs_its_series(series_next(state, outcomes[0]), outcomes.skip(1));
        }
    }
}

/// Once its labels are known, closing a ticket runs as the series of its changes does.
proof fn lemma_close_runs_its_series(
    step: StepView<SeriesView, Result<(), Status>>,
    outcomes: Seq<OutcomeView>,
)
    ensures
        close_run(close_after(step), outcomes).0 == series_run(step, outcomes).0,
        close_run(close_after(step), outcomes).1 == match series_run(step, outcomes).1 {
            None => None,
            Some(Ok(_)) => Some(
                Ok::<HtyResponseView<JsonView>, Status>(ok_view(done_data())),
            ),
            Some(Err(status)) => Some(Err(status)),
        },
    decreases outcomes.len(),
{
    if let StepView::Send(request, state) = step {
        if outcomes.len() > 0 {
            lemma_close_runs_its_series(series_next(state, outcomes[0]), outcomes.skip(1));
        }
    }
}

/// An update by an administrator or a tester, from start to end: the labels are asked for, then the
/// state is changed, labels are added and labels are removed, each as asked and in this order. It
/// fails where a change of the state or an addition cannot be sent, and stops there; a removal that
/// cannot be sent, and an error that Gitea replies, do not stop it.
pub proof fn law_update_makes_its_changes(
    gitea: GiteaView,
    id: Seq<char>,
    token: HtyToken,
    req: UpdateTicketReq,
    outcomes: Seq<OutcomeView>,
)
    requires
        admin_or_tester(token),
        outcomes.len() > 0,
        outcomes.len() > update_changes(gitea, id, req, known_labels(outcomes[0])).len(),
    ensures
        ({
            let changes = update_changes(gitea, id, req, known_labels(outcomes[0]));
            let n = first_failure(changes, outcomes.skip(1));
            update_run(update_start(gitea, id, token, req), outcomes) == if n < changes.len() {
                (
                    seq![gitea.labels_request()] + requests_of(changes).take(n + 1),
                    Some(Err(Status::InternalServerError)),
                )
            } else {
                (
                    seq![gitea.labels_request()] + requests_of(changes),
                    Some(
                        Ok::<(Status, HtyResponseView<JsonView>), Status>(
                            (Status::Success, ok_view(done_data())),
                        ),
                    ),
                )
            }
        }),
{
    let changes = update_changes(gitea, id, req, known_labels(outcomes[0]));
    law_series_sends_in_order(changes, outcomes.skip(1));
    lemma_update_runs_its_series(series_start(changes), outcomes.skip(1));
}

/// Closing a ticket by an administrator or a tester, from start to end: the labels are asked for,
/// then the state is changed, then the label `in_progress` is removed where Gitea knows it. It fails
/// where the change of the state cannot be sent, and nowhere else.
pub proof fn law_close_makes_its_changes(
    gitea: GiteaView,
    id: Seq<char>,
    token: HtyToken,
    outcomes: Seq<OutcomeView>,
)
    requires
        admin_or_tester(token),
        outcomes.len() > close_changes(gitea, id, known_labels(outcomes[0])).len(),
    ensures
        ({
            let changes = close_changes(gitea, id, known_labels(outcomes[0]));
            close_run(close_start(gitea, id, token), outcomes) == if outcomes[1] is Unsent {
                (
                    seq![gitea.labels_request(), changes[0].request],
                    Some(Err(Status::InternalServerError)),
                )
            } else {
                (
                    seq![gitea.labels_request()] + requests_of(changes),
                    Some(Ok::<HtyResponseView<JsonView>, Status>(ok_view(done_data()))),
                )
            }
        }),
{
    let changes = close_changes(gitea, id, known_labels(outcomes[0]));
    let later = outcomes.skip(1);
    law_series_sends_in_order(changes, later);
    lemma_close_runs_its_series(series_start(changes), later);
    assert(changes[0].required);
    assert(later[0] == outcomes[1]);
    if outcomes[1] is Unsent {
        assert(seq![gitea.labels_request()] + requests_of(changes).take(1) =~= seq![
            gitea.labels_request(),
            changes[0].request,
        ]);
    } else {
        lemma_no_required_no_failure(changes.skip(1), later.skip(1));
    }
}

/// Where nothing is required, nothing fails.
proof fn lemma_no_required_no_failure(changes: Seq<ChangeView>, outcomes: Seq<OutcomeView>)
    requires
        forall|i: int| 0 <= i < changes.len() ==> !(#[trigger] changes[i]).required,
    ensures
        first_failure(changes, outcomes) == changes.len(),
    decreases changes.len(),
{
    if changes.len() > 0 {
        lemma_no_required_no_failure(changes.skip(1), outcomes.skip(1));
    }
}

/// Only administrators and testers change tickets. Others are refused before anything is sent, and
/// the labels that they ask for on a new ticket are not set.
pub proof fn law_only_admins_and_testers_change_tickets(
    gitea: GiteaView,
    id: Seq<char>,
    token: HtyToken,
    update: UpdateTicketReq,
    create: CreateTicketReq,
    outcome: OutcomeView,
)
    ensures
        update_start(gitea, id, token, update) is Send <==> admin_or_tester(token),
        close_start(gitea, id, token) is Send <==> admin_or_tester(token),
        !admin_or_tester(token) ==> create_next(create_start(gitea, token, create).1, outcome)
            == StepView::<CreateTicketView, Result<HtyResponseView<JsonView>, Status>>::Send(
            gitea.request(
                Method::Post,
                gitea.issues_url(),
                Some(
                    issue_data(
                        create.title@,
                        submitted_body(create.body@, create.submitter_name.deep_view()),
                        Seq::empty(),
                    ),
                ),
            ),
            CreateTicketView::Issue,
        ),
{
    if !admin_or_tester(token) {
        reveal(Seq::filter);
        assert(ids_of(Seq::empty(), known_labels(outcome)) =~= Seq::<i64>::empty());
    }
}

/// A comment is sent only to an issue that Gitea reports as open.
pub proof fn law_closed_tickets_get_no_comment(
    gitea: GiteaView,
    id: Seq<char>,
    req: AddCommentReq,
    outcome: OutcomeView,
)
    ensures
        comment_next(comment_start(gitea, id, req).1, outcome) is Send <==> (reply_text(
            outcome,
        ) matches Some(text) && json_of(text) matches Some(issue) && text_field(issue, "state"@)
            == Some("open"@)),
{
}

/// A ticket is made with two requests: whatever becomes of the one for the labels, the issue is sent
/// once, with those of its labels that Gitea knows, and what became of that is the answer.
pub proof fn law_ticket_is_made_once(
    gitea: GiteaView,
    token: HtyToken,
    create: CreateTicketReq,
    labels: OutcomeView,
    issue: OutcomeView,
)
    ensures
        create_start(gitea, token, create).0 == gitea.labels_request(),
        create_next(create_start(gitea, token, create).1, labels) == StepView::<
            CreateTicketView,
            Result<HtyResponseView<JsonView>, Status>,
        >::Send(
            gitea.request(
                Method::Post,
                gitea.issues_url(),
                Some(
                    issue_data(
                        create.title@,
                        submitted_body(create.body@, create.submitter_name.deep_view()),
                        if admin_or_tester(token) {
                            ids_of(create.labels.deep_view(), known_labels(labels))
                        } else {
                            Seq::empty()
                        },
                    ),
                ),
            ),
            CreateTicketView::Issue,
        ),
        create_next(CreateTicketView::Issue, issue) == StepView::<
            CreateTicketView,
            Result<HtyResponseView<JsonView>, Status>,
        >::Done(forwarded_answer(issue)),
{
    if !admin_or_tester(token) {
        reveal(Seq::filter);
        assert(ids_of(Seq::empty(), known_labels(labels)) =~= Seq::<i64>::empty());
    }
}

/// What a ticket's submitter wrote is what readers are shown: a ticket made under a name is shown
/// with the first line of the name as its user and with its body, but for white space at the start
/// of it. A name whose first line is empty is not taken for a name, and the ticket is shown as it was
/// made.
pub proof fn law_submitter_is_shown(ticket: JsonView, name: Seq<char>, body: Seq<char>)
    requires
        text_field(ticket, "body"@) == Some(submitted_body(body, Some(name))),
    ensures
        before(name, '\n').len() > 0 ==> {
            &&& text_field(credited(ticket), "body"@) == Some(
                trimmed_start(name.skip(position(name, '\n')) + "\n\n"@ + body),
            )
            &&& !name.contains('\n') ==> text_field(credited(ticket), "body"@) == Some(
                trimmed_start(body),
            )
            &&& field(ticket, "user"@) matches Some(JsonView::Object(_)) ==> field(
                credited(ticket),
                "user"@,
            ) matches Some(user) && text_field(user, "login"@) == Some(before(name, '\n'))
        },
        before(name, '\n').len() == 0 ==> credited(ticket) == ticket,
{
    let mark = submitter_mark();
    let whole = submitted_body(body, Some(name));
    let rest = whole.skip(mark.len() as int);
    let tail = "\n\n"@ + body;
    reveal_strlit("\n\n");
    reveal_strlit("body");
    reveal_strlit("user");
    assert("body"@[0] != "user"@[0]);
    assert(mark =~= whole.take(mark.len() as int));
    assert(rest =~= name + tail);
    lemma_position(name, '\n');
    let p = position(name, '\n');
    assert forall|i: int| 0 <= i < p implies rest[i] != '\n' by {
        assert(rest[i] == name[i]);
    }
    assert(rest[p] == '\n') by {
        if p < name.len() {
            assert(rest[p] == name[p]);
        } else {
            assert(rest[p] == tail[0]);
        }
    }
    lemma_position_is(rest, '\n', p);
    assert(before(rest, '\n') =~= before(name, '\n'));
    assert(rest.skip(p) =~= name.skip(p) + "\n\n"@ + body);
    if !name.contains('\n') {
        assert(p == name.len()) by {
            if p < name.len() {
                assert(name[p] == '\n');
            }
        }
        assert(rest.skip(p) =~= tail);
        assert(tail.skip(1).skip(1) =~= body);
        assert(white_space(tail[0]));
        assert(tail.skip(1)[0] == '\n');
        assert(trimmed_start(tail) == trimmed_start(tail.skip(1)));
        assert(trimmed_start(tail.skip(1)) == trimmed_start(body));
    }
}

/// A ticket without a submitter's name goes out with exactly the body that was given; with a name, a
/// first line with the mark and the whole name stands before the whole body. Comments alike, with
/// their own mark.
pub proof fn law_bodies_are_sent_whole(body: Seq<char>, name: Seq<char>)
    ensures
        submitted_body(body, None) == body,
        submitted_body(body, Some(name)) == "> 提交者: "@ + (name + ("\n\n"@ + body)),
        comment_body(body, None) == body,
        comment_body(body, Some(name)) == "> "@ + (name + (" \n\n"@ + body)),
{
    assert(submitted_body(body, Some(name)) =~= "> 提交者: "@ + (name + ("\n\n"@ + body)));
    assert(comment_body(body, Some(name)) =~= "> "@ + (name + (" \n\n"@ + body)));
}

/// A list of ids as a document holds each id, in their order.
pub proof fn law_ids_are_sent_in_order(ids: Seq<i64>, i: int)
    ensures
        ids_data(ids) matches JsonView::Array(items) && items.len() == ids.len() && (0 <= i
            < ids.len() ==> items[i] == (JsonView::Number {
            value: Some(ids[i]),
            text: decimal(ids[i] as int),
        })),
{
}

/// The documents that are sent hold what they are given under its key, and nothing else.
pub proof fn law_documents_hold_what_is_given(
    title: Seq<char>,
    body: Seq<char>,
    state: Seq<char>,
    ids: Seq<i64>,
)
    ensures
        issue_data(title, body, ids) matches JsonView::Object(m) && m.dom() == set![
            "title"@,
            "body"@,
            "labels"@,
        ] && m["title"@] == JsonView::Str(title) && m["body"@] == JsonView::Str(body)
            && m["labels"@] == ids_data(ids),
        comment_data(body) matches JsonView::Object(m) && m.dom() == set!["body"@] && m["body"@]
            == JsonView::Str(body),
        state_data(state) matches JsonView::Object(m) && m.dom() == set!["state"@] && m["state"@]
            == JsonView::Str(state),
        labels_data(ids) matches JsonView::Object(m) && m.dom() == set!["labels"@] && m["labels"@]
            == ids_data(ids),
        done_data() matches JsonView::Object(m) && m.dom() == set!["ok"@] && m["ok"@]
            == JsonView::Bool(true),
{
    reveal_strlit("title");
    reveal_strlit("body");
    reveal_strlit("labels");
    assert("title"@.len() == 5 && "body"@.len() == 4 && "labels"@.len() == 6);
    assert(issue_data(title, body, ids)->Object_0.dom() =~= set!["title"@, "body"@, "labels"@]);
    assert(comment_data(body)->Object_0.dom() =~= set!["body"@]);
    assert(state_data(state)->Object_0.dom() =~= set!["state"@]);
    assert(labels_data(ids)->Object_0.dom() =~= set!["labels"@]);
    assert(done_data()->Object_0.dom() =~= set!["ok"@]);
}

/// The issue that is posted, whatever the labels' reply: the whole title, the body as it was given
/// where no submitter is named, and the ids of those labels that the caller may choose and that Gitea
/// knows.
pub proof fn law_posted_issue(
    gitea: GiteaView,
    token: HtyToken,
    create: CreateTicketReq,
    labels: OutcomeView,
)
    ensures
        create_next(create_start(gitea, token, create).1, labels) matches StepView::Send(
            request,
            next,
        ) && {
            &&& next == CreateTicketView::Issue
            &&& request.method == Method::Post
            &&& request.url == gitea.base + "/repos/weli/tickets/issues"@
            &&& request.authorization == gitea.authorization
            &&& request.payload matches Some(JsonView::Object(m)) && {
                &&& m["title"@] == JsonView::Str(create.title@)
                &&& create.submitter_name is None ==> m["body"@] == JsonView::Str(create.body@)
                &&& create.submitter_name matches Some(name) ==> m["body"@] == JsonView::Str(
                    "> 提交者: "@ + (name@ + ("\n\n"@ + create.body@)),
                )
                &&& admin_or_tester(token) ==> m["labels"@] == ids_data(
                    ids_of(create.labels.deep_view(), known_labels(labels)),
                )
                &&& !admin_or_tester(token) ==> m["labels"@] == JsonView::Array(Seq::empty())
            }
        },
{
    law_ticket_is_made_once(gitea, token, create, labels, labels);
    let ids = if admin_or_tester(token) {
        ids_of(create.labels.deep_view(), known_labels(labels))
    } else {
        Seq::empty()
    };
    let body = submitted_body(create.body@, create.submitter_name.deep_view());
    law_documents_hold_what_is_given(create.title@, body, Seq::empty(), ids);
    if let Some(name) = create.submitter_name {
        law_bodies_are_sent_whole(create.body@, name@);
    } else {
        law_bodies_are_sent_whole(create.body@, Seq::empty());
    }
    assert(ids_data(Seq::empty())->Array_0 =~= Seq::<JsonView>::empty());
}

/// What Gitea replies is handed on: its whole document on success, `null` where that is no JSON, and
/// the report of its error otherwise. Without a reply there is an internal error.
pub proof fn law_replies_are_handed_on(status: u16, text: Seq<char>)
    ensures
        forwarded_answer(OutcomeView::Reply { status, body: Some(text) }) matches Ok(resp) && {
            &&& resp.r <==> 200 <= status <= 299
            &&& resp.hty_err is None
            &&& resp.r ==> resp.e is None && (json_of(text) is None ==> resp.d == Some(
                JsonView::Null,
            )) && (json_of(text) matches Some(d) ==> resp.d == Some(d))
            &&& !resp.r ==> resp.d is None && resp.e == Some(gitea_error(status, text))
        },
        forwarded_answer(OutcomeView::Reply { status, body: None }) == Err::<
            HtyResponseView<JsonView>,
            Status,
        >(Status::InternalServerError),
        forwarded_answer(OutcomeView::Unsent) == Err::<HtyResponseView<JsonView>, Status>(
            Status::InternalServerError,
        ),
        create_next(CreateTicketView::Issue, OutcomeView::Reply { status, body: Some(text) })
            == StepView::<CreateTicketView, Result<HtyResponseView<JsonView>, Status>>::Done(
            forwarded_answer(OutcomeView::Reply { status, body: Some(text) }),
        ),
        comment_next(AddCommentView::Comment, OutcomeView::Reply { status, body: Some(text) })
            == StepView::<AddCommentView, Result<HtyResponseView<JsonView>, Status>>::Done(
            forwarded_answer(OutcomeView::Reply { status, body: Some(text) }),
        ),
{
}

/// A comment, from start to end: the issue is asked for; where it is open the whole comment is posted
/// under it, and where it is not the caller is told so. Without a document there is an internal error.
pub proof fn law_comment_is_posted_whole(
    gitea: GiteaView,
    id: Seq<char>,
    req: AddCommentReq,
    status: u16,
    text: Seq<char>,
)
    ensures
        ({
            let (first, state) = comment_start(gitea, id, req);
            let next = comment_next(state, OutcomeView::Reply { status, body: Some(text) });
            &&& first.method == Method::Get
            &&& first.url == gitea.base + "/repos/weli/tickets/issues/"@ + id
            &&& first.authorization == gitea.authorization
            &&& first.payload is None
            &&& json_of(text) is None ==> next == StepView::<
                AddCommentView,
                Result<HtyResponseView<JsonView>, Status>,
            >::Done(Err(Status::InternalServerError))
            &&& json_of(text) matches Some(issue) ==> {
                &&& text_field(issue, "state"@) == Some("open"@) ==> (next matches StepView::Send(
                    request,
                    last,
                ) && {
                    &&& last == AddCommentView::Comment
                    &&& request.method == Method::Post
                    &&& request.url == first.url + "/comments"@
                    &&& request.authorization == gitea.authorization
                    &&& request.payload matches Some(JsonView::Object(m)) && m.dom() == set![
                        "body"@,
                    ] && (req.submitter_name is None ==> m["body"@] == JsonView::Str(req.body@))
                        && (req.submitter_name matches Some(name) ==> m["body"@] == JsonView::Str(
                        "> "@ + (name@ + (" \n\n"@ + req.body@)),
                    ))
                })
                &&& text_field(issue, "state"@) != Some("open"@) ==> (next matches StepView::Done(
                    Ok(resp),
                ) && !resp.r && resp.d is None && resp.hty_err is None && resp.e == Some(
                    "Closed tickets do not accept comments"@,
                ))
            }
        }),
{
    crate::gitea::law_addresses(gitea, id, 0);
    let body = comment_body(req.body@, req.submitter_name.deep_view());
    law_documents_hold_what_is_given(Seq::empty(), body, Seq::empty(), Seq::empty());
    if let Some(name) = req.submitter_name {
        law_bodies_are_sent_whole(req.body@, name@);
    } else {
        law_bodies_are_sent_whole(req.body@, Seq::empty());
    }
}

/// A comment without a reply to the question for its issue ends in an internal error.
pub proof fn law_comment_needs_its_issue(gitea: GiteaView, id: Seq<char>, body: Seq<char>, status: u16)
    ensures
        comment_next(AddCommentView::Issue { gitea, id, body }, OutcomeView::Unsent) == StepView::<
            AddCommentView,
            Result<HtyResponseView<JsonView>, Status>,
        >::Done(Err(Status::InternalServerError)),
        comment_next(
            AddCommentView::Issue { gitea, id, body },
            OutcomeView::Reply { status, body: None },
        ) == StepView::<AddCommentView, Result<HtyResponseView<JsonView>, Status>>::Done(
            Err(Status::InternalServerError),
        ),
{
}

/// Whether a change is the removal of a label from an issue.
pub open spec fn removes(change: ChangeView, gitea: GiteaView, id: Seq<char>, label: i64) -> bool {
    &&& !change.required
    &&& change.request.method == Method::Delete
    &&& change.request.url == gitea.base + "/repos/weli/tickets/issues/"@ + id + "/labels/"@
        + decimal(label as int)
    &&& change.request.authorization == gitea.authorization
    &&& change.request.payload is None
}

/// Whether a change gives an issue a state.
pub open spec fn sets_state(
    change: ChangeView,
    gitea: GiteaView,
    id: Seq<char>,
    state: Seq<char>,
) -> bool {
    &&& change.required
    &&& change.request.method == Method::Patch
    &&& change.request.url == gitea.base + "/repos/weli/tickets/issues/"@ + id
    &&& change.request.authorization == gitea.authorization
    &&& change.request.payload matches Some(JsonView::Object(m)) && m.dom() == set!["state"@]
        && m["state"@] == JsonView::Str(state)
}

/// Whether a change adds labels to an issue.
pub open spec fn adds(change: ChangeView, gitea: GiteaView, id: Seq<char>, ids: Seq<i64>) -> bool {
    &&& change.required
    &&& change.request.method == Method::Post
    &&& change.request.url == gitea.base + "/repos/weli/tickets/issues/"@ + id + "/labels"@
    &&& change.request.authorization == gitea.authorization
    &&& change.request.payload matches Some(JsonView::Object(m)) && m.dom() == set!["labels"@]
        && m["labels"@] == ids_data(ids)
}

/// An update makes exactly the changes that are asked for: the state where one is given; all known
/// labels to add at once where there is one, with or without a state; and each known label to remove,
/// with or without the others.
pub proof fn law_update_changes_what_was_asked(
    gitea: GiteaView,
    id: Seq<char>,
    req: UpdateTicketReq,
    map: Map<Seq<char>, i64>,
    i: int,
)
    ensures
        ({
            let changes = update_changes(gitea, id, req, map);
            let added = ids_of(req.labels.deep_view(), map);
            let removed = ids_of(req.unlabels.deep_view(), map);
            let s: int = if req.state is Some {
                1
            } else {
                0
            };
            let a: int = if added.len() > 0 {
                1
            } else {
                0
            };
            &&& changes.len() == s + a + removed.len()
            &&& req.state matches Some(state) ==> sets_state(changes[0], gitea, id, state@)
            &&& added.len() > 0 ==> adds(changes[s], gitea, id, added)
            &&& 0 <= i < removed.len() ==> removes(changes[s + a + i], gitea, id, removed[i])
        }),
{
    let added = ids_of(req.labels.deep_view(), map);
    let removed = ids_of(req.unlabels.deep_view(), map);
    crate::gitea::law_addresses(gitea, id, removed[i]);
    law_documents_hold_what_is_given(
        Seq::empty(),
        Seq::empty(),
        match req.state {
            Some(state) => state@,
            None => Seq::empty(),
        },
        added,
    );
}

/// The labels that an update adds and removes do not depend on its state: with a state it makes one
/// more change, before all others.
pub proof fn law_labels_change_whatever_the_state(
    gitea: GiteaView,
    id: Seq<char>,
    without: UpdateTicketReq,
    with: UpdateTicketReq,
    map: Map<Seq<char>, i64>,
)
    requires
        without.state is None,
        with.state is Some,
        without.labels == with.labels,
        without.unlabels == with.unlabels,
    ensures
        update_changes(gitea, id, without, map) == update_changes(gitea, id, with, map).skip(1),
        update_changes(gitea, id, with, map).len() == update_changes(gitea, id, without, map).len()
            + 1,
{
    assert(update_changes(gitea, id, without, map) =~= update_changes(gitea, id, with, map).skip(
        1,
    ));
}

/// More labels to remove are more removals, after the others; the rest of the update stays.
pub proof fn law_removals_add_up(
    gitea: GiteaView,
    id: Seq<char>,
    few: UpdateTicketReq,
    many: UpdateTicketReq,
    more: Seq<Seq<char>>,
    map: Map<Seq<char>, i64>,
)
    requires
        few.state == many.state,
        few.labels == many.labels,
        many.unlabels.deep_view() == few.unlabels.deep_view() + more,
    ensures
        update_changes(gitea, id, few, map).is_prefix_of(update_changes(gitea, id, many, map)),
        update_changes(gitea, id, many, map).len() == update_changes(gitea, id, few, map).len()
            + ids_of(more, map).len(),
{
    crate::labels::law_names_become_ids_one_by_one(
        few.unlabels.deep_view(),
        more,
        Seq::empty(),
        map,
    );
    let a = update_changes(gitea, id, few, map);
    let b = update_changes(gitea, id, many, map);
    assert(a =~= b.take(a.len() as int));
}

/// Closing makes exactly its changes: the state becomes `closed`, and the label `in_progress` is
/// removed where Gitea knows it.
pub proof fn law_close_changes(gitea: GiteaView, id: Seq<char>, map: Map<Seq<char>, i64>)
    ensures
        ({
            let changes = close_changes(gitea, id, map);
            &&& changes.len() > 0
            &&& sets_state(changes[0], gitea, id, "closed"@)
            &&& !map.contains_key("in_progress"@) ==> changes.len() == 1
            &&& map.contains_key("in_progress"@) ==> changes.len() == 2 && removes(
                changes[1],
                gitea,
                id,
                map["in_progress"@],
            )
        }),
{
    crate::labels::law_names_become_ids_one_by_one(
        Seq::empty(),
        Seq::empty(),
        "in_progress"@,
        map,
    );
    crate::gitea::law_addresses(gitea, id, map["in_progress"@]);
    law_documents_hold_what_is_given(Seq::empty(), Seq::empty(), "closed"@, Seq::empty());
}

/// Those who may not change tickets are told why, under the code for a failed authentication; an
/// update is refused with 403. Those who may start with the question for the labels.
pub proof fn law_refusals_say_why(
    gitea: GiteaView,
    id: Seq<char>,
    token: HtyToken,
    req: UpdateTicketReq,
)
    ensures
        !admin_or_tester(token) ==> (update_start(gitea, id, token, req) matches StepView::Done(
            Ok((status, resp)),
        ) && status == Status::Forbidden && !resp.r && resp.d is None && resp.e == Some(
            "Only system administrators can update tickets"@,
        ) && (resp.hty_err matches Some(err) && err.code == HtyErrCode::AuthenticationFailed
            && err.reason == resp.e)),
        !admin_or_tester(token) ==> (close_start(gitea, id, token) matches StepView::Done(Ok(resp))
            && !resp.r && resp.d is None && resp.e == Some(
            "Only system administrators can close tickets"@,
        ) && (resp.hty_err matches Some(err) && err.code == HtyErrCode::AuthenticationFailed
            && err.reason == resp.e)),
        admin_or_tester(token) ==> (update_start(gitea, id, token, req) matches StepView::Send(
            request,
            _,
        ) && request == gitea.labels_request()),
        admin_or_tester(token) ==> (close_start(gitea, id, token) matches StepView::Send(request, _)
            && request == gitea.labels_request()),
{
}

/// What is said of a step, a change and a series is what they hold.
pub proof fn law_steps_say_what_they_hold(
    change: Change,
    series: Series,
    request: Request,
    create: CreateTicket,
    update: UpdateTicket,
    status: Status,
    resp: HtyResponse<Json>,
    i: int,
)
    ensures
        change@.request == change.request@ && change@.required == change.required,
        series@.required == series.required && series@.rest.len() == series.rest@.len(),
        0 <= i < series.rest@.len() ==> series@.rest[i] == series.rest@[i]@,
        step_view(Step::<CreateTicket, Result<HtyResponse<Json>, Status>>::Send(request, create))
            == StepView::<CreateTicketView, Result<HtyResponseView<JsonView>, Status>>::Send(
            request@,
            create@,
        ),
        step_view(Step::<CreateTicket, Result<HtyResponse<Json>, Status>>::Done(Ok(resp)))
            == StepView::<CreateTicketView, Result<HtyResponseView<JsonView>, Status>>::Done(
            Ok(resp.deep_view()),
        ),
        step_view(Step::<CreateTicket, Result<HtyResponse<Json>, Status>>::Done(Err(status)))
            == StepView::<CreateTicketView, Result<HtyResponseView<JsonView>, Status>>::Done(
            Err(status),
        ),
        update_step(
            Step::<UpdateTicket, Result<(Status, HtyResponse<Json>), Status>>::Send(request, update),
        ) == StepView::<UpdateTicketView, Result<(Status, HtyResponseView<JsonView>), Status>>::Send(
            request@,
            update@,
        ),
        update_step(
            Step::<UpdateTicket, Result<(Status, HtyResponse<Json>), Status>>::Done(
                Ok((status, resp)),
            ),
        ) == StepView::<UpdateTicketView, Result<(Status, HtyResponseView<JsonView>), Status>>::Done(
            Ok((status, resp.deep_view())),
        ),
        update_step(
            Step::<UpdateTicket, Result<(Status, HtyResponse<Json>), Status>>::Done(Err(status)),
        ) == StepView::<UpdateTicketView, Result<(Status, HtyResponseView<JsonView>), Status>>::Done(
            Err(status),
        ),
        series_step(Step::<Series, Result<(), Status>>::Send(request, series)) == StepView::<
            SeriesView,
            Result<(), Status>,
        >::Send(request@, series@),
        series_step(Step::<Series, Result<(), Status>>::Done(Ok(()))) == StepView::<
            SeriesView,
            Result<(), Status>,
        >::Done(Ok(())),
{
}

} // verus!
