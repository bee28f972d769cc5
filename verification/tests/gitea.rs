use upctl_svc::gitea::{
    error_report_text, gitea_error_text, phrased_text, status_text, Gitea, Method, Request,
};
use upctl_svc::json::Json;

fn gitea() -> Gitea {
    Gitea { base: "https://git.example/api/v1".to_string(), authorization: "token t".to_string() }
}

#[test]
fn status_codes_are_written_in_words() {
    assert_eq!(status_text(200), "200 OK");
    assert_eq!(status_text(404), "404 Not Found");
    assert_eq!(status_text(422), "422 Unprocessable Entity");
    assert_eq!(status_text(599), "599 <unknown status code>");
}

#[test]
fn status_words_are_those_of_the_http_crate() {
    for n in 100u16..1000 {
        let code = axum::http::StatusCode::from_u16(n).unwrap();
        assert_eq!(status_text(n), code.to_string());
        assert_eq!(code.is_success(), 200 <= n && n < 300);
    }
}

#[test]
fn errors_name_the_status_and_the_body() {
    assert_eq!(
        gitea_error_text(403, "{\"message\":\"no\"}"),
        "Gitea error 403 Forbidden: {\"message\":\"no\"}",
    );
    assert_eq!(gitea_error_text(500, ""), "Gitea error 500 Internal Server Error: ");
}

#[test]
fn phrases_and_reports_are_joined() {
    assert_eq!(phrased_text(404, Some("Not Found")), "404 Not Found");
    assert_eq!(phrased_text(299, None), "299 <unknown status code>");
    assert_eq!(error_report_text("404 Not Found", "x"), "Gitea error 404 Not Found: x");
}

#[test]
fn addresses_lie_under_the_repository() {
    let g = gitea();
    let repo = "https://git.example/api/v1/repos/weli/tickets";
    assert_eq!(g.labels_url(), format!("{repo}/labels"));
    assert_eq!(g.issues_url(), format!("{repo}/issues"));
    assert_eq!(g.issue_url("7"), format!("{repo}/issues/7"));
    assert_eq!(g.comments_url("7"), format!("{repo}/issues/7/comments"));
    assert_eq!(g.issue_labels_url("7"), format!("{repo}/issues/7/labels"));
    assert_eq!(g.issue_label_url("7", 31), format!("{repo}/issues/7/labels/31"));
}

#[test]
fn requests_carry_the_authorization() {
    let g = gitea();
    assert_eq!(
        g.labels_request(),
        Request {
            method: Method::Get,
            url: "https://git.example/api/v1/repos/weli/tickets/labels".to_string(),
            authorization: "token t".to_string(),
            payload: None,
        },
    );
    let r = g.request(Method::Post, "u".to_string(), Some(Json::Null));
    assert_eq!(r.method, Method::Post);
    assert_eq!(r.payload, Some(Json::Null));
    assert_eq!(r.authorization, "token t");
}
