use upctl_svc::access::{HtyRole, HtyToken};
use upctl_svc::attachments::{
    attachment_answer, attachment_file, attachment_path, extension_of_filename, extension_of_media_type,
    is_valid_filename, media_type_of_extension, name_upload, serve_attachment, upload_attachment,
    AttachmentQuery,
};
use upctl_svc::response::Status;

const DOCX: &str = "application/vnd.openxmlformats-officedocument.wordprocessingml.document";

fn token(role: &str) -> HtyToken {
    HtyToken { roles: Some(vec![HtyRole { role_key: Some(role.to_string()) }]), tags: None }
}

fn query(jwt: Option<&str>) -> AttachmentQuery {
    AttachmentQuery { jwt: jwt.map(|j| j.to_string()) }
}

#[test]
fn media_types_have_extensions() {
    for (mime, extension) in [
        ("image/jpeg", "jpg"),
        ("image/jpg", "jpg"),
        ("image/png", "png"),
        ("image/gif", "gif"),
        ("image/webp", "webp"),
        ("application/pdf", "pdf"),
        ("application/msword", "doc"),
        (DOCX, "docx"),
        ("text/plain", "txt"),
        ("application/octet-stream", "bin"),
        ("text/plain; charset=utf-8", "bin"),
        ("", "bin"),
    ] {
        assert_eq!(extension_of_media_type(mime), extension, "{}", mime);
    }
}

#[test]
fn extensions_have_media_types() {
    for (extension, mime) in [
        ("jpg", "image/jpeg"),
        ("jpeg", "image/jpeg"),
        ("png", "image/png"),
        ("gif", "image/gif"),
        ("webp", "image/webp"),
        ("pdf", "application/pdf"),
        ("doc", "application/msword"),
        ("docx", DOCX),
        ("txt", "text/plain"),
        ("bin", "application/octet-stream"),
        ("PNG", "application/octet-stream"),
        ("", "application/octet-stream"),
    ] {
        assert_eq!(media_type_of_extension(extension), mime, "{}", extension);
    }
}

#[test]
fn extensions_are_those_of_the_standard_library() {
    for name in
        ["a.png", "a.tar.gz", ".png", "a", "", ".", "..", "a.", "...", "..png", "提.交", "a..b"]
    {
        let path = std::path::Path::new("./uploads").join(name);
        let expected = path.extension().and_then(|e| e.to_str()).unwrap_or("");
        assert_eq!(extension_of_filename(name), expected, "{}", name);
    }
}

#[test]
fn filenames_hold_letters_digits_and_a_few_marks() {
    for name in ["a-B_9.png", "提交者.txt", "", "..", "é"] {
        assert!(is_valid_filename(name), "{}", name);
    }
    for name in ["a/b", "../a", "a\\b", "a b", "a%2f", "a\0", "a\n", "—"] {
        assert!(!is_valid_filename(name), "{}", name);
    }
}

#[test]
fn uploads_are_named_by_uuid_and_media_type() {
    let upload = name_upload("u-1".to_string(), Some("image/png"));
    assert_eq!(upload.uuid, "u-1");
    assert_eq!(upload.filename, "u-1.png");
    assert_eq!(upload.path, "./uploads/u-1.png");
    assert_eq!(name_upload("u".to_string(), None).filename, "u.bin");
}

#[test]
fn uploads_get_random_uuids() {
    let a = upload_attachment(Some("text/plain"));
    let b = upload_attachment(Some("text/plain"));
    assert_ne!(a.uuid, b.uuid);
    for upload in [a, b] {
        let c: Vec<char> = upload.uuid.chars().collect();
        assert_eq!(c.len(), 36);
        for (i, c) in c.iter().enumerate() {
            match i {
                8 | 13 | 18 | 23 => assert_eq!(*c, '-'),
                14 => assert_eq!(*c, '4'),
                19 => assert!("89ab".contains(*c)),
                _ => assert!("0123456789abcdef".contains(*c)),
            }
        }
        assert_eq!(upload.filename, format!("{}.txt", upload.uuid));
        assert_eq!(upload.path, format!("./uploads/{}.txt", upload.uuid));
    }
}

#[test]
fn a_written_upload_is_answered_with_its_address() {
    let upload = name_upload("u-1".to_string(), Some("application/pdf"));
    let resp = upload.finish(true).unwrap();
    assert!(resp.r);
    let d = resp.d.unwrap();
    assert_eq!(d.get("url").unwrap().as_str(), Some("/api/v2/ts/attachment/u-1.pdf"));
    assert_eq!(d.get("uuid").unwrap().as_str(), Some("u-1"));
}

#[test]
fn an_upload_that_could_not_be_written_is_an_error() {
    let upload = name_upload("u-1".to_string(), None);
    assert_eq!(upload.finish(false), Err(Status::InternalServerError));
}

#[test]
fn the_name_is_checked_before_the_token() {
    assert_eq!(
        serve_attachment("a/b", &query(None)),
        Err((Status::BadRequest, "invalid filename")),
    );
    assert_eq!(
        serve_attachment("a/b", &query(Some("t"))),
        Err((Status::BadRequest, "invalid filename")),
    );
    assert_eq!(
        serve_attachment("a.png", &query(None)),
        Err((Status::Unauthorized, "missing jwt")),
    );
    assert_eq!(serve_attachment("a.png", &query(Some("t"))), Ok("t"));
}

#[test]
fn only_admins_and_testers_fetch_attachments() {
    assert_eq!(attachment_path("a.png", None), Err((Status::Unauthorized, "invalid jwt")));
    assert_eq!(
        attachment_path("a.png", Some(token("STUDENT"))),
        Err((Status::Forbidden, "insufficient permissions")),
    );
    for role in ["ADMIN", "TESTER"] {
        assert_eq!(
            attachment_path("a.png", Some(token(role))),
            Ok("./uploads/a.png".to_string()),
        );
    }
}

#[test]
fn files_are_served_with_their_media_type() {
    assert_eq!(attachment_file("a.png", Some(vec![1, 2])), Ok(("image/png", vec![1, 2])));
    assert_eq!(attachment_file("a", Some(vec![])), Ok(("application/octet-stream", vec![])));
    assert_eq!(attachment_file("a.png", None), Err((Status::NotFound, "file not found")));
}

#[test]
fn the_first_refusal_is_the_answer() {
    let bad = Err((Status::BadRequest, "invalid filename"));
    assert_eq!(attachment_answer("../x", &query(Some("t")), Some(token("ADMIN")), Some(vec![1])), bad);
    assert_eq!(attachment_answer("a/b", &query(None), None, None), bad);
    assert_eq!(
        attachment_answer("a.png", &query(None), Some(token("ADMIN")), Some(vec![1])),
        Err((Status::Unauthorized, "missing jwt")),
    );
    assert_eq!(
        attachment_answer("a.png", &query(Some("t")), None, Some(vec![1])),
        Err((Status::Unauthorized, "invalid jwt")),
    );
    assert_eq!(
        attachment_answer("a.png", &query(Some("t")), Some(token("STUDENT")), Some(vec![1])),
        Err((Status::Forbidden, "insufficient permissions")),
    );
    assert_eq!(
        attachment_answer("a.png", &query(Some("t")), Some(token("TESTER")), None),
        Err((Status::NotFound, "file not found")),
    );
    assert_eq!(
        attachment_answer("a.png", &query(Some("t")), Some(token("TESTER")), Some(vec![1])),
        Ok(("image/png", vec![1])),
    );
}

#[test]
fn uploads_can_be_served_as_what_they_were() {
    for (mime, served) in [
        (Some("image/png"), "image/png"),
        (Some("image/jpg"), "image/jpeg"),
        (Some(DOCX), DOCX),
        (Some("text/plain"), "text/plain"),
        (Some("audio/ogg"), "application/octet-stream"),
        (None, "application/octet-stream"),
    ] {
        let upload = upload_attachment(mime);
        assert!(is_valid_filename(&upload.filename));
        assert_eq!(attachment_file(&upload.filename, Some(vec![7])), Ok((served, vec![7])));
    }
}
