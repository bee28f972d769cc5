//! The Gitea API: its addresses, the requests that go to it and what comes back.
use vstd::prelude::*;

use crate::json::{Json, JsonView};
use crate::text::{decimal, decimal_text};

verus! {

/// Where Gitea is and how to authenticate there.
#[derive(Debug)]
pub struct Gitea {
    pub base: String,
    pub authorization: String,
}

/// What a `Gitea` says.
pub struct GiteaView {
    pub base: Seq<char>,
    pub authorization: Seq<char>,
}

impl View for Gitea {
    type V = GiteaView;

    open spec fn view(&self) -> GiteaView {
        GiteaView { base: self.base@, authorization: self.authorization@ }
    }
}

/// The HTTP methods in use.
#[derive(Clone, Copy, Debug, PartialEq, Eq, Structural)]
pub enum Method {
    Get,
    Post,
    Patch,
    Delete,
}

/// A request to Gitea. The `Authorization` header carries `authorization`; a payload goes as
/// `application/json`.
#[derive(Debug, PartialEq)]
pub struct Request {
    pub method: Method,
    pub url: String,
    pub authorization: String,
    pub payload: Option<Json>,
}

/// What a `Request` says.
pub struct RequestView {
    pub method: Method,
    pub url: Seq<char>,
    pub authorization: Seq<char>,
    pub payload: Option<JsonView>,
}

impl View for Request {
    type V = RequestView;

    open spec fn view(&self) -> RequestView {
        RequestView {
            method: self.method,
            url: self.url@,
            authorization: self.authorization@,
            payload: self.payload.deep_view(),
        }
    }
}

/// What became of a request: it could not be sent, or a reply came, whose body is missing where it
/// could not be read as text.
#[derive(Debug)]
pub enum Outcome {
    Unsent,
    Reply { status: u16, body: Option<String> },
}

/// What an `Outcome` says.
pub enum OutcomeView {
    Unsent,
    Reply { status: u16, body: Option<Seq<char>> },
}

impl View for Outcome {
    type V = OutcomeView;

    open spec fn view(&self) -> OutcomeView {
        match self {
            Outcome::Unsent => OutcomeView::Unsent,
            Outcome::Reply { status, body } => OutcomeView::Reply {
                status: *status,
                body: body.deep_view(),
            },
        }
    }
}

/// What to do next: send a request and go on in the given state, or stop with a result.
#[derive(Debug)]
pub enum Step<S, R> {
    Send(Request, S),
    Done(R),
}

/// What a `Step` says.
pub enum StepView<S, R> {
    Send(RequestView, S),
    Done(R),
}

/// The text of a reply, where one came and could be read.
pub open spec fn reply_text(outcome: OutcomeView) -> Option<Seq<char>> {
    match outcome {
        OutcomeView::Unsent => None,
        OutcomeView::Reply { body, .. } => body,
    }
}

/// Whether a status code reports success.
pub open spec fn success(status: u16) -> bool {
    200 <= status < 300
}

/// What HTTP calls a status code: `http`'s table of reason phrases.
pub uninterp spec fn reason_phrase(status: u16) -> Option<Seq<char>>;

/// Calls `http::StatusCode::from_u16` and, where that is a status code,
/// `http::StatusCode::canonical_reason`. Claims that the phrase depends on the number alone, and
/// names it.
#[verifier::external_body]
fn canonical_reason(status: u16) -> (phrase: Option<&'static str>)
    ensures
        phrase.deep_view() == reason_phrase(status),
{
    axum::http::StatusCode::from_u16(status).ok().and_then(|s| s.canonical_reason())
}

/// A status code and a reason phrase in words.
pub open spec fn phrased(status: u16, phrase: Option<Seq<char>>) -> Seq<char> {
    decimal(status as int) + " "@ + match phrase {
        Some(phrase) => phrase,
        None => "<unknown status code>"@,
    }
}

/// A status code in words: the number and its reason phrase.
pub open spec fn status_words(status: u16) -> Seq<char> {
    phrased(status, reason_phrase(status))
}

/// The report of a reply that is no success, with its status code in words.
pub open spec fn error_report(words: Seq<char>, body: Seq<char>) -> Seq<char> {
    "Gitea error "@ + words + ": "@ + body
}

/// The report of a reply that is no success.
pub open spec fn gitea_error(status: u16, body: Seq<char>) -> Seq<char> {
    error_report(status_words(status), body)
}

/// Writes a status code and a reason phrase in words.
pub fn phrased_text(status: u16, phrase: Option<&str>) -> (t: String)
    ensures
        t@ == phrased(status, phrase.deep_view()),
{
    let mut t = decimal_text(status as i64);
    t.append(" ");
    match phrase {
        Some(phrase) => t.append(phrase),
        None => t.append("<unknown status code>"),
    }
    t
}

/// Writes a status code in words.
pub fn status_text(status: u16) -> (t: String)
    ensures
        t@ == status_words(status),
{
    phrased_text(status, canonical_reason(status))
}

/// Writes the report of a reply that is no success, with its status code in words.
pub fn error_report_text(words: &str, body: &str) -> (t: String)
    ensures
        t@ == error_report(words@, body@),
{
    let mut t = "Gitea error ".to_owned();
    t.append(words);
    t.append(": ");
    t.append(body);
    t
}

/// Writes the report of a reply that is no success.
pub fn gitea_error_text(status: u16, body: &str) -> (t: String)
    ensures
        t@ == gitea_error(status, body@),
{
    error_report_text(status_text(status).as_str(), body)
}

impl GiteaView {
    /// The labels of the repository.
    pub open spec fn labels_url(self) -> Seq<char> {
        self.base + "/repos/weli/tickets/labels"@
    }

    /// The issues of the repository.
    pub open spec fn issues_url(self) -> Seq<char> {
        self.base + "/repos/weli/tickets/issues"@
    }

    /// One issue.
    pub open spec fn issue_url(self, id: Seq<char>) -> Seq<char> {
        self.issues_url() + "/"@ + id
    }

    /// The comments on an issue.
    pub open spec fn comments_url(self, id: Seq<char>) -> Seq<char> {
        self.issue_url(id) + "/comments"@
    }

    /// The labels of an issue.
    pub open spec fn issue_labels_url(self, id: Seq<char>) -> Seq<char> {
        self.issue_url(id) + "/labels"@
    }

    /// One label of an issue.
    pub open spec fn issue_label_url(self, id: Seq<char>, label: i64) -> Seq<char> {
        self.issue_labels_url(id) + "/"@ + decimal(label as int)
    }

    /// A request with this authorization.
    pub open spec fn request(
        self,
        method: Method,
        url: Seq<char>,
        payload: Option<JsonView>,
    ) -> RequestView {
        RequestView { method, url, authorization: self.authorization, payload }
    }

    /// The request for the labels of the repository.
    pub open spec fn labels_request(self) -> RequestView {
        self.request(Method::Get, self.labels_url(), None)
    }
}

impl Gitea {
    /// The address of the repository's labels.
    pub fn labels_url(&self) -> (url: String)
        ensures
            url@ == self@.labels_url(),
    {
        self.base.clone().concat("/repos/weli/tickets/labels")
    }

    /// The address of the repository's issues.
    pub fn issues_url(&self) -> (url: String)
        ensures
            url@ == self@.issues_url(),
    {
        self.base.clone().concat("/repos/weli/tickets/issues")
    }

    /// The address of an issue.
    pub fn issue_url(&self, id: &str) -> (url: String)
        ensures
            url@ == self@.issue_url(id@),
    {
        self.issues_url().concat("/").concat(id)
    }

    /// The address of the comments on an issue.
    pub fn comments_url(&self, id: &str) -> (url: String)
        ensures
            url@ == self@.comments_url(id@),
    {
        self.issue_url(id).concat("/comments")
    }

    /// The address of the labels of an issue.
    pub fn issue_labels_url(&self, id: &str) -> (url: String)
        ensures
            url@ == self@.issue_labels_url(id@),
    {
        self.issue_url(id).concat("/labels")
    }

    /// The address of one label of an issue.
    pub fn issue_label_url(&self, id: &str, label: i64) -> (url: String)
        ensures
            url@ == self@.issue_label_url(id@, label),
    {
        self.issue_labels_url(id).concat("/").concat(decimal_text(label).as_str())
    }

    /// A request with this authorization.
    pub fn request(&self, method: Method, url: String, payload: Option<Json>) -> (r: Request)
        ensures
            r@ == self@.request(method, url@, payload.deep_view()),
    {
        Request { method, url, authorization: self.authorization.clone(), payload }
    }

    /// The request for the labels of the repository.
    pub fn labels_request(&self) -> (r: Request)
        ensures
            r@ == self@.labels_request(),
    {
        self.request(Method::Get, self.labels_url(), None)
    }
}

/// What is said of an access point, a request and an outcome is what they hold.
pub proof fn law_requests_and_outcomes_say_what_they_hold(
    gitea: Gitea,
    request: Request,
    outcome: Outcome,
)
    ensures
        gitea@.base == gitea.base@ && gitea@.authorization == gitea.authorization@,
        request@.method == request.method && request@.url == request.url@ && request@.authorization
            == request.authorization@,
        request.payload matches Some(p) ==> request@.payload == Some(p@),
        request.payload is None ==> request@.payload is None,
        outcome is Unsent <==> outcome@ is Unsent,
        outcome matches Outcome::Reply { status, body } ==> outcome@ matches OutcomeView::Reply {
            status: s,
            body: b,
        } && s == status && (body is Some <==> b is Some) && (body matches Some(t) ==> b == Some(
            t@,
        )),
        reply_text(outcome@) is Some <==> (outcome matches Outcome::Reply { body: Some(_), .. }),
        outcome matches Outcome::Reply { body: Some(t), .. } ==> reply_text(outcome@) == Some(t@),
{
}

/// A request is sent as it was asked for, under the access point's authorization.
pub proof fn law_requests_are_sent_as_asked(
    gitea: GiteaView,
    method: Method,
    url: Seq<char>,
    payload: Option<JsonView>,
)
    ensures
        gitea.request(method, url, payload).method == method,
        gitea.request(method, url, payload).url == url,
        gitea.request(method, url, payload).payload == payload,
        gitea.request(method, url, payload).authorization == gitea.authorization,
        gitea.labels_request().method == Method::Get,
        gitea.labels_request().url == gitea.base + "/repos/weli/tickets/labels"@,
        gitea.labels_request().payload is None,
        gitea.labels_request().authorization == gitea.authorization,
{
}

/// The addresses: what belongs to an issue lies under the issue's own address, which ends with its
/// id, and a label's address ends with its id in decimal.
pub proof fn law_addresses(gitea: GiteaView, id: Seq<char>, label: i64)
    ensures
        gitea.labels_url() == gitea.base + "/repos/weli/tickets/labels"@,
        gitea.issues_url() == gitea.base + "/repos/weli/tickets/issues"@,
        gitea.issue_url(id) == gitea.base + "/repos/weli/tickets/issues/"@ + id,
        gitea.comments_url(id) == gitea.base + "/repos/weli/tickets/issues/"@ + id + "/comments"@,
        gitea.issue_labels_url(id) == gitea.base + "/repos/weli/tickets/issues/"@ + id
            + "/labels"@,
        gitea.issue_label_url(id, label) == gitea.base + "/repos/weli/tickets/issues/"@ + id
            + "/labels/"@ + decimal(label as int),
{
    reveal_strlit("/repos/weli/tickets/issues");
    reveal_strlit("/repos/weli/tickets/issues/");
    reveal_strlit("/");
    reveal_strlit("/labels");
    reveal_strlit("/labels/");
    assert("/repos/weli/tickets/issues"@ + "/"@ =~= "/repos/weli/tickets/issues/"@);
    assert("/labels"@ + "/"@ =~= "/labels/"@);
    assert(gitea.issue_url(id) =~= gitea.base + "/repos/weli/tickets/issues/"@ + id);
    assert(gitea.issue_label_url(id, label) =~= gitea.base + "/repos/weli/tickets/issues/"@ + id
        + "/labels/"@ + decimal(label as int));
}

/// Different issues have different addresses, and so have the labels of an issue.
pub proof fn law_addresses_differ(gitea: GiteaView, a: Seq<char>, b: Seq<char>)
    requires
        a != b,
    ensures
        gitea.issue_url(a) != gitea.issue_url(b),
        gitea.comments_url(a) != gitea.comments_url(b),
        gitea.issue_labels_url(a) != gitea.issue_labels_url(b),
{
    let before = gitea.issues_url() + "/"@;
    lemma_between(before, a, b, Seq::empty());
    assert(before + a + Seq::<char>::empty() =~= gitea.issue_url(a));
    assert(before + b + Seq::<char>::empty() =~= gitea.issue_url(b));
    lemma_between(before, a, b, "/comments"@);
    lemma_between(before, a, b, "/labels"@);
}

/// Texts that differ still differ between the same texts.
pub proof fn lemma_between(before: Seq<char>, a: Seq<char>, b: Seq<char>, after: Seq<char>)
    requires
        a != b,
    ensures
        before + a + after != before + b + after,
{
    if before + a + after == before + b + after {
        let n = before.len() as int;
        assert((before + a + after).len() == (before + b + after).len());
        assert((before + a + after).subrange(n, n + a.len()) =~= a);
        assert((before + b + after).subrange(n, n + b.len()) =~= b);
    }
}

/// Success is what HTTP calls so: the codes from 200 to 299.
pub proof fn law_success(status: u16)
    ensures
        success(status) <==> status / 100 == 2,
{
}

/// A report of an error names the code, what HTTP calls it, and all that Gitea said.
pub proof fn law_error_report(status: u16, phrase: Seq<char>, body: Seq<char>)
    ensures
        phrased(status, Some(phrase)) == decimal(status as int) + " "@ + phrase,
        phrased(status, None) == decimal(status as int) + " <unknown status code>"@,
        reason_phrase(status) == Some(phrase) ==> gitea_error(status, body) == "Gitea error "@
            + decimal(status as int) + " "@ + phrase + ": "@ + body,
        reason_phrase(status) is None ==> gitea_error(status, body) == "Gitea error "@ + decimal(
            status as int,
        ) + " <unknown status code>: "@ + body,
{
    reveal_strlit(" ");
    reveal_strlit(": ");
    reveal_strlit("<unknown status code>");
    reveal_strlit(" <unknown status code>");
    reveal_strlit(" <unknown status code>: ");
    assert(" "@ + "<unknown status code>"@ =~= " <unknown status code>"@);
    assert(" <unknown status code>"@ + ": "@ =~= " <unknown status code>: "@);
    assert(phrased(status, None) =~= decimal(status as int) + " <unknown status code>"@);
    if let Some(p) = reason_phrase(status) {
        if p == phrase {
            assert(gitea_error(status, body) =~= "Gitea error "@ + decimal(status as int) + " "@
                + phrase + ": "@ + body);
        }
    } else {
        assert(gitea_error(status, body) =~= "Gitea error "@ + decimal(status as int)
            + " <unknown status code>: "@ + body);
    }
}

} // verus!
