//! Reading tickets: the list and the detail view.
use vstd::prelude::*;

use crate::decode::{json_list_of, json_of, list_view, parse_json, parse_json_list};
use crate::gitea::{
    lemma_between, reply_text, success, Gitea, GiteaView, Method, Outcome, OutcomeView, Request,
    RequestView,
};
use crate::json::{field, item_views, lemma_array_view, text_field, Json, JsonView};
use crate::response::{answer, ok_view, wrap_ok_resp, HtyResponse, HtyResponseView, Status};
use crate::text::{
    before, find_char, lemma_position, lemma_position_is, position, same_text, strip_prefix,
    trim_start, trimmed_start, white_space,
};

verus! {

/// What a caller may ask of the list of tickets.
#[derive(Debug)]
pub struct TicketQuery {
    pub state: Option<String>,
    pub limit: Option<String>,
    pub page: Option<String>,
    pub labels: Option<String>,
}

/// The given text, or the default where there is none.
pub open spec fn given_or(o: Option<String>, default: Seq<char>) -> Seq<char> {
    match o {
        Some(s) => s@,
        None => default,
    }
}

/// The state that is asked for; open tickets where the caller does not say.
pub open spec fn asked_state(query: TicketQuery) -> Seq<char> {
    given_or(query.state, "open"@)
}

/// The address of the list: closed tickets come by their last update, others by their creation,
/// the latest first.
pub open spec fn list_url(gitea: GiteaView, query: TicketQuery) -> Seq<char> {
    let page = gitea.issues_url() + "?state="@ + asked_state(query) + "&limit="@ + given_or(
        query.limit,
        "50"@,
    ) + "&page="@ + given_or(query.page, "1"@);
    let labelled = match query.labels {
        Some(labels) => page + "&labels="@ + labels@,
        None => page,
    };
    if asked_state(query) == "closed"@ {
        labelled + "&sort=updated&order=desc"@
    } else {
        labelled + "&sort=created&order=desc"@
    }
}

/// The request for the list, and the state that was asked for.
pub open spec fn list_start(gitea: GiteaView, query: TicketQuery) -> (RequestView, Seq<char>) {
    (gitea.request(Method::Get, list_url(gitea, query), None), asked_state(query))
}

/// The requests for a ticket and for its comments.
pub open spec fn detail_start(gitea: GiteaView, id: Seq<char>) -> (RequestView, RequestView) {
    (
        gitea.request(Method::Get, gitea.issue_url(id), None),
        gitea.request(Method::Get, gitea.comments_url(id), None),
    )
}

/// The line that names the submitter of a ticket starts so.
pub open spec fn submitter_mark() -> Seq<char> {
    "> 提交者: "@
}

/// The text after the mark, up to the end of the line, where the body starts with the mark and the
/// name is not empty.
pub open spec fn submitter(body: Seq<char>) -> Option<Seq<char>> {
    if submitter_mark().is_prefix_of(body) {
        let name = before(body.skip(submitter_mark().len() as int), '\n');
        if name.len() > 0 {
            Some(name)
        } else {
            None
        }
    } else {
        None
    }
}

/// A body as it is shown: where it starts with the mark, without that line and the white space after
/// it. A body of a single line is shown whole.
pub open spec fn shown_body(body: Seq<char>) -> Seq<char> {
    let rest = body.skip(submitter_mark().len() as int);
    let end = position(rest, '\n');
    if submitter_mark().is_prefix_of(body) && end < rest.len() {
        trimmed_start(rest.skip(end))
    } else {
        body
    }
}

/// A ticket with its submitter as the user, where its body names one.
pub open spec fn credited(ticket: JsonView) -> JsonView {
    match text_field(ticket, "body"@) {
        Some(body) => match submitter(body) {
            Some(name) => {
                let m = ticket->Object_0;
                let by = match field(ticket, "user"@) {
                    Some(JsonView::Object(user)) => m.insert(
                        "user"@,
                        JsonView::Object(user.insert("login"@, JsonView::Str(name))),
                    ),
                    _ => m,
                };
                JsonView::Object(by.insert("body"@, JsonView::Str(shown_body(body))))
            },
            None => ticket,
        },
        None => ticket,
    }
}

/// Tickets with their submitters.
pub open spec fn all_credited(tickets: Seq<JsonView>) -> Seq<JsonView> {
    tickets.map_values(|t: JsonView| credited(t))
}

/// Whether a ticket carries the label `urgent`.
pub open spec fn urgent(ticket: JsonView) -> bool {
    field(ticket, "labels"@) matches Some(JsonView::Array(labels)) && exists|i: int|
        0 <= i < labels.len() && text_field(#[trigger] labels[i], "name"@) == Some("urgent"@)
}

/// The urgent ones among the tickets, in their order.
pub open spec fn urgent_ones(tickets: Seq<JsonView>) -> Seq<JsonView> {
    tickets.filter(|t: JsonView| urgent(t))
}

/// The tickets that are not urgent, in their order.
pub open spec fn other_ones(tickets: Seq<JsonView>) -> Seq<JsonView> {
    tickets.filter(|t: JsonView| !urgent(t))
}

/// The tickets with the urgent ones first.
pub open spec fn urgent_first(tickets: Seq<JsonView>) -> Seq<JsonView> {
    urgent_ones(tickets) + other_ones(tickets)
}

/// The text that agents put before a prompt.
pub open spec fn prompt_prefix() -> Seq<char> {
    "不要进入plan mode，直接干活\n\n"@
}

/// The list of tickets as it is answered.
pub open spec fn list_data(state: Seq<char>, tickets: Seq<JsonView>) -> JsonView {
    let shown = all_credited(tickets);
    JsonView::Object(
        Map::empty().insert(
            "tickets"@,
            JsonView::Array(
                if state == "open"@ {
                    urgent_first(shown)
                } else {
                    shown
                },
            ),
        ).insert("claude_prompt_prefix"@, JsonView::Str(prompt_prefix())),
    )
}

/// The answer that a list of tickets makes, where there is one.
pub open spec fn list_or_failure(state: Seq<char>, list: Option<Seq<JsonView>>) -> Result<
    HtyResponseView<JsonView>,
    Status,
> {
    match list {
        Some(tickets) => Ok(ok_view(list_data(state, tickets))),
        None => Err(Status::InternalServerError),
    }
}

/// The answer to a caller who asked for the tickets in `state`, for each outcome of the request.
pub open spec fn list_answer(state: Seq<char>, outcome: OutcomeView) -> Result<
    HtyResponseView<JsonView>,
    Status,
> {
    match outcome {
        OutcomeView::Reply { status, body: Some(text) } => if success(status) {
            list_or_failure(state, json_list_of(text))
        } else {
            Err(Status::InternalServerError)
        },
        _ => Err(Status::InternalServerError),
    }
}

/// A ticket with its comments, as it is answered.
pub open spec fn detail_data(issue: JsonView, comments: Seq<JsonView>) -> JsonView {
    JsonView::Object(
        Map::empty().insert("issue"@, credited(issue)).insert(
            "comments"@,
            JsonView::Array(comments),
        ).insert("claude_prompt_prefix"@, JsonView::Str(prompt_prefix())),
    )
}

/// The answer that a ticket and the list of its comments make, where there are both.
pub open spec fn detail_or_failure(
    issue: Option<JsonView>,
    comments: Option<Seq<JsonView>>,
) -> Result<HtyResponseView<JsonView>, Status> {
    match (issue, comments) {
        (Some(issue), Some(comments)) => Ok(ok_view(detail_data(issue, comments))),
        _ => Err(Status::InternalServerError),
    }
}

/// The answer to a caller who asked for a ticket, for each outcome of the two requests. Their status
/// codes do not count.
pub open spec fn detail_answer(issue: OutcomeView, comments: OutcomeView) -> Result<
    HtyResponseView<JsonView>,
    Status,
> {
    match (reply_text(issue), reply_text(comments)) {
        (Some(issue), Some(comments)) => detail_or_failure(
            json_of(issue),
            json_list_of(comments),
        ),
        _ => Err(Status::InternalServerError),
    }
}

/// The given text, or the default where there is none.
fn text_or<'a>(o: &'a Option<String>, default: &'a str) -> (t: &'a str)
    ensures
        t@ == given_or(*o, default@),
{
    match o {
        Some(s) => s.as_str(),
        None => default,
    }
}

/// A request for the list of tickets, waiting for its outcome.
#[derive(Debug)]
pub struct ListTickets {
    pub state: String,
}

/// Asks Gitea for the tickets.
pub fn gitea_list_tickets(gitea: &Gitea, query: &TicketQuery) -> (asked: (Request, ListTickets))
    ensures
        (asked.0@, asked.1.state@) == list_start(gitea@, *query),
{
    let state = text_or(&query.state, "open");
    let mut url = gitea.issues_url();
    url.append("?state=");
    url.append(state);
    url.append("&limit=");
    url.append(text_or(&query.limit, "50"));
    url.append("&page=");
    url.append(text_or(&query.page, "1"));
    if let Some(labels) = &query.labels {
        url.append("&labels=");
        url.append(labels.as_str());
    }
    if same_text(state, "closed") {
        url.append("&sort=updated&order=desc");
    } else {
        url.append("&sort=created&order=desc");
    }
    (gitea.request(Method::Get, url, None), ListTickets { state: state.to_owned() })
}

/// The name of the submitter in a body.
pub fn submitter_name(body: &str) -> (name: Option<&str>)
    ensures
        name.deep_view() == submitter(body@),
{
    match strip_prefix(body, "> 提交者: ") {
        Some(rest) => {
            proof {
                lemma_position(rest@, '\n');
            }
            let end: usize = match find_char(rest, '\n') {
                Some(p) => p,
                None => rest.unicode_len(),
            };
            let name = rest.substring_char(0, end);
            assert(name@ =~= before(rest@, '\n'));
            if name.is_empty() {
                None
            } else {
                Some(name)
            }
        },
        None => None,
    }
}

/// A body without the line that names its submitter.
pub fn body_without_submitter(body: &str) -> (shown: &str)
    ensures
        shown@ == shown_body(body@),
{
    match strip_prefix(body, "> 提交者: ") {
        Some(rest) => match find_char(rest, '\n') {
            Some(p) => {
                let n = rest.unicode_len();
                let after = rest.substring_char(p, n);
                assert(after@ =~= rest@.skip(p as int));
                trim_start(after)
            },
            None => body,
        },
        None => body,
    }
}

/// Names the submitter of a ticket as its user, where its body names one.
pub fn credit_submitter(ticket: Json) -> (shown: Json)
    ensures
        shown@ == credited(ticket@),
{
    let (name, body) = match ticket.get("body") {
        Some(b) => match b.as_str() {
            Some(body) => match submitter_name(body) {
                Some(name) => (name.to_owned(), body_without_submitter(body).to_owned()),
                None => return ticket,
            },
            None => return ticket,
        },
        None => return ticket,
    };
    let by = ticket.with_inner_field("user", "login", Json::Str(name));
    by.with_field("body", Json::Str(body))
}

/// Whether a ticket carries the label `urgent`.
pub fn is_urgent(ticket: &Json) -> (yes: bool)
    ensures
        yes == urgent(ticket@),
{
    match ticket.get("labels") {
        Some(Json::Array(labels)) => {
            proof {
                lemma_array_view(*labels);
            }
            let ghost views = item_views(labels@);
            let mut i: usize = 0;
            while i < labels.len()
                invariant
                    views == item_views(labels@),
                    field(ticket@, "labels"@) == Some(JsonView::Array(views)),
                    i <= labels.len(),
                    forall|j: int|
                        0 <= j < i ==> text_field(#[trigger] views[j], "name"@) != Some("urgent"@),
                decreases labels.len() - i,
            {
                assert(views[i as int] == labels@[i as int]@);
                if let Some(name) = labels[i].get("name") {
                    if let Some(name) = name.as_str() {
                        if same_text(name, "urgent") {
                            return true;
                        }
                    }
                }
                i += 1;
            }
            false
        },
        _ => false,
    }
}

/// Adding a ticket at the end adds it at the end of its group.
proof fn lemma_groups_push(tickets: Seq<JsonView>, t: JsonView)
    ensures
        urgent_ones(tickets.push(t)) == if urgent(t) {
            urgent_ones(tickets).push(t)
        } else {
            urgent_ones(tickets)
        },
        other_ones(tickets.push(t)) == if urgent(t) {
            other_ones(tickets)
        } else {
            other_ones(tickets).push(t)
        },
{
    reveal(Seq::filter);
    assert(tickets.push(t).drop_last() =~= tickets);
}

/// Puts the urgent tickets first and keeps the order within both groups.
pub fn put_urgent_first(tickets: Vec<Json>) -> (sorted: Vec<Json>)
    ensures
        item_views(sorted@) == urgent_first(item_views(tickets@)),
{
    let ghost all = item_views(tickets@);
    let mut first: Vec<Json> = Vec::new();
    let mut rest: Vec<Json> = Vec::new();
    proof {
        reveal(Seq::filter);
    }
    for ticket in it: tickets
        invariant
            item_views(it.seq()) == all,
            item_views(first@) == urgent_ones(all.take(it.index() as int)),
            item_views(rest@) == other_ones(all.take(it.index() as int)),
    {
        let ghost i = it.index() as int;
        proof {
            assert(all[i] == ticket@);
            assert(all.take(i + 1) =~= all.take(i).push(ticket@));
            lemma_groups_push(all.take(i), ticket@);
        }
        if is_urgent(&ticket) {
            let ghost earlier = first@;
            first.push(ticket);
            assert(item_views(first@) =~= item_views(earlier).push(ticket@));
        } else {
            let ghost earlier = rest@;
            rest.push(ticket);
            assert(item_views(rest@) =~= item_views(earlier).push(ticket@));
        }
    }
    assert(all.take(all.len() as int) =~= all);
    let ghost a = item_views(first@);
    let ghost b = item_views(rest@);
    first.append(&mut rest);
    assert(item_views(first@) =~= a + b);
    first
}

/// Names the submitters of all tickets.
pub fn credit_submitters(tickets: Vec<Json>) -> (shown: Vec<Json>)
    ensures
        item_views(shown@) == all_credited(item_views(tickets@)),
{
    let ghost all = item_views(tickets@);
    let mut shown: Vec<Json> = Vec::new();
    for ticket in it: tickets
        invariant
            item_views(it.seq()) == all,
            item_views(shown@) == all_credited(all).take(it.index() as int),
    {
        let ghost i = it.index() as int;
        let ghost earlier = shown@;
        assert(all[i] == ticket@);
        let t = credit_submitter(ticket);
        shown.push(t);
        assert(item_views(shown@) =~= item_views(earlier).push(t@));
        assert(item_views(shown@) =~= all_credited(all).take(i + 1));
    }
    assert(all_credited(all).take(all.len() as int) =~= all_credited(all));
    shown
}

/// The answer that carries the tickets in `state`.
pub fn ticket_list(state: &str, tickets: Vec<Json>) -> (resp: HtyResponse<Json>)
    ensures
        resp.deep_view() == ok_view(list_data(state@, item_views(tickets@))),
{
    let credited = credit_submitters(tickets);
    let shown = if same_text(state, "open") {
        put_urgent_first(credited)
    } else {
        credited
    };
    wrap_ok_resp(
        Json::empty_object().with_field("tickets", Json::array(shown)).with_field(
            "claude_prompt_prefix",
            Json::text("不要进入plan mode，直接干活\n\n"),
        ),
    )
}

/// The answer that a list of tickets makes, where there is one.
pub fn answer_list(state: &str, list: Option<Vec<Json>>) -> (resp: Result<
    HtyResponse<Json>,
    Status,
>)
    ensures
        answer(resp) == list_or_failure(state@, list_view(list)),
{
    match list {
        Some(tickets) => Ok(ticket_list(state, tickets)),
        None => Err(Status::InternalServerError),
    }
}

impl ListTickets {
    /// Answers the caller, now that the outcome is known.
    pub fn finish(self, outcome: Outcome) -> (resp: Result<HtyResponse<Json>, Status>)
        ensures
            answer(resp) == list_answer(self.state@, outcome@),
    {
        match outcome {
            Outcome::Reply { status, body: Some(text) } => {
                if status < 200 || status >= 300 {
                    return Err(Status::InternalServerError);
                }
                answer_list(self.state.as_str(), parse_json_list(text.as_str()))
            },
            _ => Err(Status::InternalServerError),
        }
    }
}

/// Asks Gitea for a ticket and for its comments.
pub fn gitea_get_ticket(gitea: &Gitea, id: &str) -> (asked: (Request, Request))
    ensures
        (asked.0@, asked.1@) == detail_start(gitea@, id@),
{
    (
        gitea.request(Method::Get, gitea.issue_url(id), None),
        gitea.request(Method::Get, gitea.comments_url(id), None),
    )
}

/// The answer that carries a ticket and its comments.
pub fn ticket_detail(issue: Json, comments: Vec<Json>) -> (resp: HtyResponse<Json>)
    ensures
        resp.deep_view() == ok_view(detail_data(issue@, item_views(comments@))),
{
    wrap_ok_resp(
        Json::empty_object().with_field("issue", credit_submitter(issue)).with_field(
            "comments",
            Json::array(comments),
        ).with_field("claude_prompt_prefix", Json::text("不要进入plan mode，直接干活\n\n")),
    )
}

/// The answer that a ticket and the list of its comments make, where there are both.
pub fn answer_detail(issue: Option<Json>, comments: Option<Vec<Json>>) -> (resp: Result<
    HtyResponse<Json>,
    Status,
>)
    ensures
        answer(resp) == detail_or_failure(issue.deep_view(), list_view(comments)),
{
    match (issue, comments) {
        (Some(issue), Some(comments)) => Ok(ticket_detail(issue, comments)),
        _ => Err(Status::InternalServerError),
    }
}

/// Answers a caller who asked for a ticket, now that both outcomes are known.
pub fn finish_get_ticket(issue: Outcome, comments: Outcome) -> (resp: Result<
    HtyResponse<Json>,
    Status,
>)
    ensures
        answer(resp) == detail_answer(issue@, comments@),
{
    match (issue, comments) {
        (
            Outcome::Reply { body: Some(issue), .. },
            Outcome::Reply { body: Some(comments), .. },
        ) => answer_detail(parse_json(issue.as_str()), parse_json_list(comments.as_str())),
        _ => Err(Status::InternalServerError),
    }
}

/// Putting the urgent tickets first loses none and adds none, keeps the order among the urgent ones
/// and among the others, and no urgent ticket comes after one that is not.
pub proof fn law_urgent_first_only_rearranges(tickets: Seq<JsonView>)
    ensures
        urgent_first(tickets).to_multiset() == tickets.to_multiset(),
        urgent_first(tickets).filter(|t: JsonView| urgent(t)) == tickets.filter(
            |t: JsonView| urgent(t),
        ),
        urgent_first(tickets).filter(|t: JsonView| !urgent(t)) == tickets.filter(
            |t: JsonView| !urgent(t),
        ),
        forall|i: int, j: int|
            0 <= i < j < urgent_first(tickets).len() && urgent(#[trigger] urgent_first(tickets)[j])
                ==> urgent(#[trigger] urgent_first(tickets)[i]),
{
    let sorted = urgent_first(tickets);
    lemma_groups(tickets);
    lemma_same_tickets(tickets);
    let is = |t: JsonView| urgent(t);
    let is_not = |t: JsonView| !urgent(t);
    let first = urgent_ones(tickets);
    let rest = other_ones(tickets);
    Seq::filter_distributes_over_add(first, rest, is);
    Seq::filter_distributes_over_add(first, rest, is_not);
    lemma_filter_all(first, is);
    lemma_filter_none(rest, is);
    lemma_filter_none(first, is_not);
    lemma_filter_all(rest, is_not);
    assert(urgent_ones(sorted) =~= first);
    assert(other_ones(sorted) =~= rest);
    assert forall|i: int, j: int|
        0 <= i < j < sorted.len() && urgent(#[trigger] sorted[j]) implies urgent(
        #[trigger] sorted[i],
    ) by {
        if j >= first.len() {
            assert(sorted[j] == rest[j - first.len()]);
        }
        assert(sorted[i] == first[i]);
    }
}

/// The groups hold what they should.
proof fn lemma_groups(tickets: Seq<JsonView>)
    ensures
        forall|i: int|
            0 <= i < urgent_ones(tickets).len() ==> urgent(#[trigger] urgent_ones(tickets)[i]),
        forall|i: int|
            0 <= i < other_ones(tickets).len() ==> !urgent(#[trigger] other_ones(tickets)[i]),
    decreases tickets.len(),
{
    reveal(Seq::filter);
    if tickets.len() > 0 {
        lemma_groups(tickets.drop_last());
        lemma_groups_push(tickets.drop_last(), tickets.last());
        assert(tickets.drop_last().push(tickets.last()) =~= tickets);
    }
}

/// The groups together hold the tickets.
proof fn lemma_same_tickets(tickets: Seq<JsonView>)
    ensures
        urgent_first(tickets).to_multiset() == tickets.to_multiset(),
    decreases tickets.len(),
{
    broadcast use vstd::seq_lib::group_to_multiset_ensures;

    reveal(Seq::filter);
    if tickets.len() == 0 {
        assert(urgent_first(tickets) =~= tickets);
    } else {
        let earlier = tickets.drop_last();
        let t = tickets.last();
        lemma_same_tickets(earlier);
        lemma_groups_push(earlier, t);
        assert(earlier.push(t) =~= tickets);
        vstd::seq_lib::lemma_multiset_commutative(urgent_ones(earlier), other_ones(earlier));
        vstd::seq_lib::lemma_multiset_commutative(urgent_ones(tickets), other_ones(tickets));
        assert(urgent_first(tickets).to_multiset() =~= urgent_first(earlier).to_multiset().insert(
            t,
        ));
    }
}

/// A filter that everything passes changes nothing.
proof fn lemma_filter_all<A>(s: Seq<A>, pred: spec_fn(A) -> bool)
    requires
        forall|i: int| 0 <= i < s.len() ==> pred(#[trigger] s[i]),
    ensures
        s.filter(pred) == s,
    decreases s.len(),
{
    reveal(Seq::filter);
    if s.len() > 0 {
        lemma_filter_all(s.drop_last(), pred);
        assert(s.drop_last().push(s.last()) =~= s);
    }
}

/// A filter that nothing passes leaves nothing.
proof fn lemma_filter_none<A>(s: Seq<A>, pred: spec_fn(A) -> bool)
    requires
        forall|i: int| 0 <= i < s.len() ==> !pred(#[trigger] s[i]),
    ensures
        s.filter(pred) == Seq::<A>::empty(),
    decreases s.len(),
{
    reveal(Seq::filter);
    if s.len() > 0 {
        lemma_filter_none(s.drop_last(), pred);
    } else {
        assert(s =~= Seq::<A>::empty());
    }
}

/// Naming the submitter changes the body and the user's login at most: every other field of the
/// ticket stays, every other field of the user too, and a ticket whose body names no submitter stays
/// as it is.
pub proof fn law_crediting_keeps_the_rest(ticket: JsonView, key: Seq<char>)
    ensures
        key != "body"@ && key != "user"@ ==> field(credited(ticket), key) == field(ticket, key),
        field(ticket, "user"@) matches Some(user) ==> field(credited(ticket), "user"@) matches Some(
            shown,
        ) && (key != "login"@ ==> field(shown, key) == field(user, key)),
        field(ticket, "user"@) is None ==> field(credited(ticket), "user"@) is None,
        text_field(ticket, "body"@) is None ==> credited(ticket) == ticket,
        text_field(ticket, "body"@) matches Some(body) && submitter(body) is None ==> credited(
            ticket,
        ) == ticket,
{
    reveal_strlit("body");
    reveal_strlit("user");
    assert("body"@[0] != "user"@[0]);
}

/// Naming the submitter makes no ticket urgent and none less so.
pub proof fn law_crediting_keeps_urgency(ticket: JsonView)
    ensures
        urgent(credited(ticket)) == urgent(ticket),
{
    reveal_strlit("body");
    reveal_strlit("user");
    reveal_strlit("labels");
    assert("labels"@.len() == 6);
    law_crediting_keeps_the_rest(ticket, "labels"@);
}

/// The list shows every ticket that Gitea sent, and no other, each with its submitter.
pub proof fn law_list_shows_every_ticket(state: Seq<char>, tickets: Seq<JsonView>)
    ensures
        field(list_data(state, tickets), "tickets"@) matches Some(JsonView::Array(shown))
            && shown.to_multiset() == all_credited(tickets).to_multiset(),
{
    let shown = if state == "open"@ {
        urgent_first(all_credited(tickets))
    } else {
        all_credited(tickets)
    };
    assert(shown.to_multiset() == all_credited(tickets).to_multiset()) by {
        lemma_same_tickets(all_credited(tickets));
    }
    assert(field(list_data(state, tickets), "tickets"@) == Some(JsonView::Array(shown))) by {
        reveal_strlit("tickets");
        reveal_strlit("claude_prompt_prefix");
        assert("tickets"@.len() != "claude_prompt_prefix"@.len());
    }
}

/// The list is asked for as the caller wants it, whatever else the caller wants: the state, the limit
/// and the page that are given stand in the address, `open`, 50 and 1 only where none is given. Labels
/// are named only where they are given. Closed tickets come by their last update, others by their
/// creation.
pub proof fn law_list_is_asked_for_as_given(
    gitea: GiteaView,
    query: TicketQuery,
    state: Seq<char>,
    limit: Seq<char>,
    page: Seq<char>,
)
    requires
        query.state matches Some(s) ==> state == s@,
        query.state is None ==> state == "open"@,
        query.limit matches Some(l) ==> limit == l@,
        query.limit is None ==> limit == "50"@,
        query.page matches Some(p) ==> page == p@,
        query.page is None ==> page == "1"@,
    ensures
        ({
            let (request, waiting) = list_start(gitea, query);
            let start = gitea.base + "/repos/weli/tickets/issues?state="@ + state + "&limit="@
                + limit + "&page="@ + page;
            let end = if state == "closed"@ {
                "&sort=updated&order=desc"@
            } else {
                "&sort=created&order=desc"@
            };
            &&& waiting == state
            &&& request.method == Method::Get
            &&& request.authorization == gitea.authorization
            &&& request.payload is None
            &&& query.labels is None ==> request.url == start + end
            &&& query.labels matches Some(labels) ==> request.url == start + "&labels="@ + labels@
                + end
        }),
{
    reveal_strlit("/repos/weli/tickets/issues?state=");
    reveal_strlit("/repos/weli/tickets/issues");
    reveal_strlit("?state=");
    assert("/repos/weli/tickets/issues"@ + "?state="@ =~= "/repos/weli/tickets/issues?state="@);
    let start = gitea.base + "/repos/weli/tickets/issues?state="@ + state + "&limit="@ + limit
        + "&page="@ + page;
    assert(start =~= gitea.issues_url() + "?state="@ + state + "&limit="@ + limit + "&page="@
        + page);
}

/// The part of an address that names the labels.
spec fn labels_part(query: TicketQuery) -> Seq<char> {
    match query.labels {
        Some(labels) => "&labels="@ + labels@,
        None => Seq::empty(),
    }
}

/// The part of an address that names the order.
spec fn order_part(state: Seq<char>) -> Seq<char> {
    if state == "closed"@ {
        "&sort=updated&order=desc"@
    } else {
        "&sort=created&order=desc"@
    }
}

/// An address by its parts.
proof fn lemma_list_url(
    gitea: GiteaView,
    query: TicketQuery,
    state: Seq<char>,
    limit: Seq<char>,
    page: Seq<char>,
)
    requires
        query.state matches Some(s) ==> state == s@,
        query.state is None ==> state == "open"@,
        query.limit matches Some(l) ==> limit == l@,
        query.limit is None ==> limit == "50"@,
        query.page matches Some(p) ==> page == p@,
        query.page is None ==> page == "1"@,
    ensures
        list_url(gitea, query) == gitea.base + "/repos/weli/tickets/issues?state="@ + state
            + "&limit="@ + limit + "&page="@ + page + labels_part(query) + order_part(state),
{
    law_list_is_asked_for_as_given(gitea, query, state, limit, page);
    assert(list_url(gitea, query) =~= gitea.base + "/repos/weli/tickets/issues?state="@ + state
        + "&limit="@ + limit + "&page="@ + page + labels_part(query) + order_part(state));
}

/// Another page is another address, where all else is the same.
pub proof fn law_pages_have_their_own_addresses(
    gitea: GiteaView,
    a: TicketQuery,
    b: TicketQuery,
)
    requires
        a.state == b.state && a.limit == b.limit && a.labels == b.labels,
        a.page is Some && b.page is Some && a.page->0@ != b.page->0@,
    ensures
        list_url(gitea, a) != list_url(gitea, b),
{
    let state = asked_state(a);
    let limit = given_or(a.limit, "50"@);
    let before = gitea.base + "/repos/weli/tickets/issues?state="@ + state + "&limit="@ + limit
        + "&page="@;
    let after = labels_part(a) + order_part(state);
    lemma_list_url(gitea, a, state, limit, a.page->0@);
    lemma_list_url(gitea, b, state, limit, b.page->0@);
    lemma_between(before, a.page->0@, b.page->0@, after);
    lemma_regroup(before + a.page->0@, labels_part(a), order_part(state));
    lemma_regroup(before + b.page->0@, labels_part(a), order_part(state));
}

/// Another limit is another address, where all else is the same.
pub proof fn law_limits_have_their_own_addresses(
    gitea: GiteaView,
    a: TicketQuery,
    b: TicketQuery,
)
    requires
        a.state == b.state && a.page == b.page && a.labels == b.labels,
        a.limit is Some && b.limit is Some && a.limit->0@ != b.limit->0@,
    ensures
        list_url(gitea, a) != list_url(gitea, b),
{
    let state = asked_state(a);
    let page = given_or(a.page, "1"@);
    let before = gitea.base + "/repos/weli/tickets/issues?state="@ + state + "&limit="@;
    let end = labels_part(a) + order_part(state);
    let after = "&page="@ + page + end;
    lemma_list_url(gitea, a, state, a.limit->0@, page);
    lemma_list_url(gitea, b, state, b.limit->0@, page);
    lemma_between(before, a.limit->0@, b.limit->0@, after);
    lemma_regroup_more(before + a.limit->0@, "&page="@, page, labels_part(a), order_part(state));
    lemma_regroup_more(before + b.limit->0@, "&page="@, page, labels_part(a), order_part(state));
}

/// Another state is another address, where all else is the same.
pub proof fn law_states_have_their_own_addresses(
    gitea: GiteaView,
    a: TicketQuery,
    b: TicketQuery,
)
    requires
        a.limit == b.limit && a.page == b.page && a.labels == b.labels,
        a.state is Some && b.state is Some && a.state->0@ != b.state->0@,
    ensures
        list_url(gitea, a) != list_url(gitea, b),
{
    let sa = a.state->0@;
    let sb = b.state->0@;
    let limit = given_or(a.limit, "50"@);
    let page = given_or(a.page, "1"@);
    let start = gitea.base + "/repos/weli/tickets/issues?state="@;
    let ua = list_url(gitea, a);
    let ub = list_url(gitea, b);
    lemma_list_url(gitea, a, sa, limit, page);
    lemma_list_url(gitea, b, sb, limit, page);
    assert(order_part(sa).len() == order_part(sb).len()) by {
        reveal_strlit("&sort=updated&order=desc");
        reveal_strlit("&sort=created&order=desc");
    }
    let n = start.len() as int;
    let middle = "&limit="@.len() + limit.len() + "&page="@.len() + page.len() + labels_part(
        a,
    ).len();
    assert(ua.len() == n + sa.len() + middle + order_part(sa).len());
    assert(ub.len() == n + sb.len() + middle + order_part(sb).len());
    if ua == ub {
        assert(sa.len() == sb.len());
        assert forall|i: int| 0 <= i < sa.len() implies sa[i] == sb[i] by {
            assert(ua[n + i] == sa[i]);
            assert(ub[n + i] == sb[i]);
        }
        assert(sa =~= sb);
    }
}

/// Where the brackets stand does not matter.
proof fn lemma_regroup(a: Seq<char>, b: Seq<char>, c: Seq<char>)
    ensures
        a + b + c == a + (b + c),
{
    assert(a + b + c =~= a + (b + c));
}

/// Where the brackets stand does not matter.
proof fn lemma_regroup_more(
    a: Seq<char>,
    b: Seq<char>,
    c: Seq<char>,
    d: Seq<char>,
    e: Seq<char>,
)
    ensures
        a + b + c + d + e == a + (b + c + (d + e)),
{
    assert(a + b + c + d + e =~= a + (b + c + (d + e)));
}

/// A ticket and its comments are asked for under the ticket's own address.
pub proof fn law_ticket_is_asked_for_with_its_comments(gitea: GiteaView, id: Seq<char>)
    ensures
        ({
            let (issue, comments) = detail_start(gitea, id);
            &&& issue.method == Method::Get && comments.method == Method::Get
            &&& issue.payload is None && comments.payload is None
            &&& issue.authorization == gitea.authorization
            &&& comments.authorization == gitea.authorization
            &&& issue.url == gitea.base + "/repos/weli/tickets/issues/"@ + id
            &&& comments.url == issue.url + "/comments"@
        }),
{
    crate::gitea::law_addresses(gitea, id, 0);
}

/// Who submitted a ticket, and what is shown of its body. A body that starts with the mark names all
/// that follows on the first line; what follows that line is shown, but for white space at its start.
/// A body without the mark, or with nothing after it on the line, names nobody; one without the mark,
/// or of a single line, is shown as it is.
pub proof fn law_submitter_line(name: Seq<char>, rest: Seq<char>, body: Seq<char>)
    requires
        !name.contains('\n'),
    ensures
        submitter("> 提交者: "@ + name) == if name.len() > 0 {
            Some(name)
        } else {
            None
        },
        submitter("> 提交者: "@ + name + "\n"@ + rest) == if name.len() > 0 {
            Some(name)
        } else {
            None
        },
        shown_body("> 提交者: "@ + name) == "> 提交者: "@ + name,
        shown_body("> 提交者: "@ + name + "\n"@ + rest) == trimmed_start(rest),
        !"> 提交者: "@.is_prefix_of(body) ==> submitter(body) is None && shown_body(body) == body,
{
    let mark = "> 提交者: "@;
    reveal_strlit("\n");
    let one = mark + name;
    let more = mark + name + "\n"@ + rest;
    assert(mark =~= one.take(mark.len() as int));
    assert(mark =~= more.take(mark.len() as int));
    assert(one.skip(mark.len() as int) =~= name);
    let after = more.skip(mark.len() as int);
    assert(after =~= name + "\n"@ + rest);
    assert forall|i: int| 0 <= i < name.len() implies name[i] != '\n' by {
        assert(name.contains(name[i]));
    }
    lemma_position_is(name, '\n', name.len() as int);
    assert(before(name, '\n') =~= name);
    assert forall|i: int| 0 <= i < name.len() implies after[i] != '\n' by {
        assert(after[i] == name[i]);
    }
    assert(after[name.len() as int] == '\n');
    lemma_position_is(after, '\n', name.len() as int);
    assert(before(after, '\n') =~= name);
    let tail = after.skip(name.len() as int);
    assert(tail =~= "\n"@ + rest);
    assert(white_space(tail[0]));
    assert(tail.skip(1) =~= rest);
}

/// A ticket whose body names a submitter is shown with that name as its user's login, and with its
/// body as it is to be shown; a user that is no object stays, and no field comes or goes.
pub proof fn law_credited_ticket(fields: Map<Seq<char>, JsonView>, body: Seq<char>, key: Seq<char>)
    requires
        fields.contains_key("body"@),
        fields["body"@] == JsonView::Str(body),
    ensures
        credited(JsonView::Object(fields)) matches JsonView::Object(shown) && {
            &&& shown.contains_key(key) <==> fields.contains_key(key)
            &&& submitter(body) is None ==> shown == fields
            &&& submitter(body) matches Some(name) ==> {
                &&& shown["body"@] == JsonView::Str(shown_body(body))
                &&& fields.contains_key("user"@) ==> match fields["user"@] {
                    JsonView::Object(user) => shown["user"@] == JsonView::Object(
                        user.insert("login"@, JsonView::Str(name)),
                    ),
                    other => shown["user"@] == other,
                }
                &&& key != "body"@ && key != "user"@ && fields.contains_key(key) ==> shown[key]
                    == fields[key]
            }
        },
{
    reveal_strlit("body");
    reveal_strlit("user");
    assert("body"@[0] != "user"@[0]);
}

/// A ticket is urgent where one of its labels, whichever it is, has the name `urgent`.
pub proof fn law_one_label_makes_urgent(
    fields: Map<Seq<char>, JsonView>,
    labels: Seq<JsonView>,
    i: int,
    other: JsonView,
)
    requires
        fields.contains_key("labels"@),
        fields["labels"@] == JsonView::Array(labels),
        !(other is Object),
    ensures
        0 <= i < labels.len() && text_field(labels[i], "name"@) == Some("urgent"@) ==> urgent(
            JsonView::Object(fields),
        ),
        (forall|k: int|
            0 <= k < labels.len() ==> text_field(#[trigger] labels[k], "name"@) != Some("urgent"@))
            ==> !urgent(JsonView::Object(fields)),
        !urgent(other),
        !urgent(JsonView::Object(fields.remove("labels"@))),
{
}

/// The list answers with every ticket that Gitea sent, each with its submitter: open tickets with the
/// urgent ones first, others in Gitea's order. Beside the tickets it holds the prompt prefix alone.
pub proof fn law_list_keeps_gitea_order(state: Seq<char>, tickets: Seq<JsonView>, i: int)
    ensures
        list_data(state, tickets) matches JsonView::Object(data) && {
            &&& data.dom() == set!["tickets"@, "claude_prompt_prefix"@]
            &&& data["claude_prompt_prefix"@] == JsonView::Str(
                "不要进入plan mode，直接干活\n\n"@,
            )
            &&& state != "open"@ ==> (data["tickets"@] matches JsonView::Array(shown) && shown.len()
                == tickets.len() && (0 <= i < tickets.len() ==> shown[i] == credited(tickets[i])))
            &&& state == "open"@ ==> data["tickets"@] == JsonView::Array(
                urgent_first(tickets.map_values(|t: JsonView| credited(t))),
            )
        },
{
    let data = list_data(state, tickets)->Object_0;
    assert(data.dom() =~= set!["tickets"@, "claude_prompt_prefix"@]);
    reveal_strlit("tickets");
    reveal_strlit("claude_prompt_prefix");
    assert("tickets"@.len() != "claude_prompt_prefix"@.len());
}

/// The list is answered exactly where Gitea reports success and lists tickets.
pub proof fn law_list_is_answered(state: Seq<char>, status: u16, text: Seq<char>)
    ensures
        200 <= status <= 299 && json_list_of(text) is Some ==> (list_answer(
            state,
            OutcomeView::Reply { status, body: Some(text) },
        ) matches Ok(resp) && resp.r && resp.e is None && resp.hty_err is None && resp.d == Some(
            list_data(state, json_list_of(text)->0),
        )),
        !(200 <= status <= 299) || json_list_of(text) is None ==> list_answer(
            state,
            OutcomeView::Reply { status, body: Some(text) },
        ) == Err::<HtyResponseView<JsonView>, Status>(Status::InternalServerError),
        list_answer(state, OutcomeView::Reply { status, body: None }) == Err::<
            HtyResponseView<JsonView>,
            Status,
        >(Status::InternalServerError),
        list_answer(state, OutcomeView::Unsent) == Err::<HtyResponseView<JsonView>, Status>(
            Status::InternalServerError,
        ),
{
}

/// The detail view shows the ticket with its submitter and all comments that Gitea sent, unchanged
/// and in their order. Beside these it holds the prompt prefix alone.
pub proof fn law_detail_shows_every_comment(issue: JsonView, comments: Seq<JsonView>, i: int)
    ensures
        detail_data(issue, comments) matches JsonView::Object(data) && {
            &&& data.dom() == set!["issue"@, "comments"@, "claude_prompt_prefix"@]
            &&& data["comments"@] == JsonView::Array(comments)
            &&& data["issue"@] == credited(issue)
            &&& data["claude_prompt_prefix"@] == JsonView::Str(
                "不要进入plan mode，直接干活\n\n"@,
            )
        },
        field(detail_data(issue, comments), "comments"@) matches Some(JsonView::Array(shown))
            && shown.len() == comments.len() && (0 <= i < comments.len() ==> shown[i]
            == comments[i]),
{
    reveal_strlit("issue");
    reveal_strlit("comments");
    reveal_strlit("claude_prompt_prefix");
    assert("issue"@.len() == 5 && "comments"@.len() == 8 && "claude_prompt_prefix"@.len() == 20);
    let data = detail_data(issue, comments)->Object_0;
    assert(data.dom() =~= set!["issue"@, "comments"@, "claude_prompt_prefix"@]);
}

/// A ticket is answered exactly where both replies came, the first holds a document and the second a
/// list; their status codes do not count.
pub proof fn law_detail_is_answered(
    status: u16,
    other: u16,
    issue: Seq<char>,
    comments: Seq<char>,
)
    ensures
        json_of(issue) is Some && json_list_of(comments) is Some ==> (detail_answer(
            OutcomeView::Reply { status, body: Some(issue) },
            OutcomeView::Reply { status: other, body: Some(comments) },
        ) matches Ok(resp) && resp.r && resp.e is None && resp.hty_err is None && resp.d == Some(
            detail_data(json_of(issue)->0, json_list_of(comments)->0),
        )),
        json_of(issue) is None || json_list_of(comments) is None ==> detail_answer(
            OutcomeView::Reply { status, body: Some(issue) },
            OutcomeView::Reply { status: other, body: Some(comments) },
        ) == Err::<HtyResponseView<JsonView>, Status>(Status::InternalServerError),
        forall|o: OutcomeView|
            #![trigger detail_answer(OutcomeView::Unsent, o)]
            #![trigger detail_answer(o, OutcomeView::Unsent)]
            detail_answer(OutcomeView::Unsent, o) == Err::<HtyResponseView<JsonView>, Status>(
                Status::InternalServerError,
            ) && detail_answer(o, OutcomeView::Unsent) == Err::<HtyResponseView<JsonView>, Status>(
                Status::InternalServerError,
            ),
{
}

} // verus!
