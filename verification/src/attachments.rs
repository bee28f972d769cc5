//! Attachments: how uploaded files are named, who may fetch them and as what.
use vstd::prelude::*;

use crate::access::{admin_or_tester, is_admin_or_tester, HtyToken};
use crate::json::{Json, JsonView};
use crate::response::{answer, ok_view, wrap_ok_resp, HtyResponse, HtyResponseView, Status};
use crate::text::{alphanumeric, ascii_alphanumeric, chars_of, same_text};

verus! {

/// What a caller passes along to fetch an attachment.
#[derive(Debug)]
pub struct AttachmentQuery {
    pub jwt: Option<String>,
}

/// The file name extension for a media type.
pub open spec fn extension_for(mime: Seq<char>) -> Seq<char> {
    if mime == "image/jpeg"@ || mime == "image/jpg"@ {
        "jpg"@
    } else if mime == "image/png"@ {
        "png"@
    } else if mime == "image/gif"@ {
        "gif"@
    } else if mime == "image/webp"@ {
        "webp"@
    } else if mime == "application/pdf"@ {
        "pdf"@
    } else if mime == "application/msword"@ {
        "doc"@
    } else if mime
        == "application/vnd.openxmlformats-officedocument.wordprocessingml.document"@ {
        "docx"@
    } else if mime == "text/plain"@ {
        "txt"@
    } else {
        "bin"@
    }
}

/// The media type for a file name extension.
pub open spec fn media_type_for(extension: Seq<char>) -> Seq<char> {
    if extension == "jpg"@ || extension == "jpeg"@ {
        "image/jpeg"@
    } else if extension == "png"@ {
        "image/png"@
    } else if extension == "gif"@ {
        "image/gif"@
    } else if extension == "webp"@ {
        "image/webp"@
    } else if extension == "pdf"@ {
        "application/pdf"@
    } else if extension == "doc"@ {
        "application/msword"@
    } else if extension == "docx"@ {
        "application/vnd.openxmlformats-officedocument.wordprocessingml.document"@
    } else if extension == "txt"@ {
        "text/plain"@
    } else {
        "application/octet-stream"@
    }
}

/// The file name extension for a media type.
pub fn extension_of_media_type(mime: &str) -> (extension: &'static str)
    ensures
        extension@ == extension_for(mime@),
{
    if same_text(mime, "image/jpeg") || same_text(mime, "image/jpg") {
        "jpg"
    } else if same_text(mime, "image/png") {
        "png"
    } else if same_text(mime, "image/gif") {
        "gif"
    } else if same_text(mime, "image/webp") {
        "webp"
    } else if same_text(mime, "application/pdf") {
        "pdf"
    } else if same_text(mime, "application/msword") {
        "doc"
    } else if same_text(
        mime,
        "application/vnd.openxmlformats-officedocument.wordprocessingml.document",
    ) {
        "docx"
    } else if same_text(mime, "text/plain") {
        "txt"
    } else {
        "bin"
    }
}

/// The media type for a file name extension.
pub fn media_type_of_extension(extension: &str) -> (mime: &'static str)
    ensures
        mime@ == media_type_for(extension@),
{
    if same_text(extension, "jpg") || same_text(extension, "jpeg") {
        "image/jpeg"
    } else if same_text(extension, "png") {
        "image/png"
    } else if same_text(extension, "gif") {
        "image/gif"
    } else if same_text(extension, "webp") {
        "image/webp"
    } else if same_text(extension, "pdf") {
        "application/pdf"
    } else if same_text(extension, "doc") {
        "application/msword"
    } else if same_text(extension, "docx") {
        "application/vnd.openxmlformats-officedocument.wordprocessingml.document"
    } else if same_text(extension, "txt") {
        "text/plain"
    } else {
        "application/octet-stream"
    }
}

/// Whether `c` is a hexadecimal digit in lower case.
pub open spec fn lower_hex(c: char) -> bool {
    '0' <= c <= '9' || 'a' <= c <= 'f'
}

/// Whether `c` may stand at place `i` of a random UUID in its hyphenated form.
pub open spec fn uuid_char(i: int, c: char) -> bool {
    if i == 8 || i == 13 || i == 18 || i == 23 {
        c == '-'
    } else if i == 14 {
        c == '4'
    } else if i == 19 {
        c == '8' || c == '9' || c == 'a' || c == 'b'
    } else {
        lower_hex(c)
    }
}

/// Whether a text is a random UUID in its hyphenated form.
pub open spec fn uuid_text(s: Seq<char>) -> bool {
    s.len() == 36 && forall|i: int| 0 <= i < 36 ==> uuid_char(i, #[trigger] s[i])
}

/// Calls `uuid::Uuid::new_v4` and writes the result in its hyphenated form. Which UUID comes is left
/// to chance; claims only the form, with the version and the variant of a random UUID. It panics
/// where the system has no random bytes to give.
#[verifier::external_body]
fn random_uuid() -> (uuid: String)
    ensures
        uuid_text(uuid@),
{
    uuid::Uuid::new_v4().to_string()
}

/// The media type of an upload; plain bytes where the caller does not say.
pub open spec fn upload_type(mime: Option<Seq<char>>) -> Seq<char> {
    match mime {
        Some(mime) => mime,
        None => "application/octet-stream"@,
    }
}

/// The file name of an upload.
pub open spec fn upload_filename(uuid: Seq<char>, mime: Option<Seq<char>>) -> Seq<char> {
    uuid + "."@ + extension_for(upload_type(mime))
}

/// Where a file of this name is kept.
pub open spec fn upload_path(filename: Seq<char>) -> Seq<char> {
    "./uploads/"@ + filename
}

/// The data of the answer to an upload.
pub open spec fn upload_data(uuid: Seq<char>, filename: Seq<char>) -> JsonView {
    JsonView::Object(
        Map::empty().insert("url"@, JsonView::Str("/api/v2/ts/attachment/"@ + filename)).insert(
            "uuid"@,
            JsonView::Str(uuid),
        ),
    )
}

/// The answer to an upload, now that the file was written, or could not be.
pub open spec fn upload_answer(uuid: Seq<char>, filename: Seq<char>, written: bool) -> Result<
    HtyResponseView<JsonView>,
    Status,
> {
    if written {
        Ok(ok_view(upload_data(uuid, filename)))
    } else {
        Err(Status::InternalServerError)
    }
}

/// An upload that is to be written.
#[derive(Debug)]
pub struct Upload {
    pub uuid: String,
    pub filename: String,
    pub path: String,
}

/// Names an upload.
pub fn name_upload(uuid: String, mime: Option<&str>) -> (upload: Upload)
    ensures
        upload.uuid@ == uuid@,
        upload.filename@ == upload_filename(uuid@, mime.deep_view()),
        upload.path@ == upload_path(upload.filename@),
{
    let mime_type = match mime {
        Some(mime) => mime,
        None => "application/octet-stream",
    };
    let filename = uuid.clone().concat(".").concat(extension_of_media_type(mime_type));
    let path = "./uploads/".to_owned().concat(filename.as_str());
    Upload { uuid, filename, path }
}

/// Names an upload at random.
pub fn upload_attachment(mime: Option<&str>) -> (upload: Upload)
    ensures
        uuid_text(upload.uuid@),
        upload.filename@ == upload_filename(upload.uuid@, mime.deep_view()),
        upload.path@ == upload_path(upload.filename@),
{
    name_upload(random_uuid(), mime)
}

impl Upload {
    /// Answers the caller, now that the file was written, or could not be.
    pub fn finish(self, written: bool) -> (resp: Result<HtyResponse<Json>, Status>)
        ensures
            answer(resp) == upload_answer(self.uuid@, self.filename@, written),
    {
        if !written {
            return Err(Status::InternalServerError);
        }
        let url = "/api/v2/ts/attachment/".to_owned().concat(self.filename.as_str());
        Ok(
            wrap_ok_resp(
                Json::empty_object().with_field("url", Json::Str(url)).with_field(
                    "uuid",
                    Json::Str(self.uuid),
                ),
            ),
        )
    }
}

/// Whether `c` may stand in the name of an attachment.
pub open spec fn filename_char(c: char) -> bool {
    alphanumeric(c) || c == '-' || c == '_' || c == '.'
}

/// Whether a text may be the name of an attachment.
pub open spec fn valid_filename(s: Seq<char>) -> bool {
    forall|i: int| 0 <= i < s.len() ==> filename_char(#[trigger] s[i])
}

/// Whether a text may be the name of an attachment.
pub fn is_valid_filename(s: &str) -> (yes: bool)
    ensures
        yes == valid_filename(s@),
{
    let chars = chars_of(s);
    let mut i: usize = 0;
    while i < chars.len()
        invariant
            chars@ == s@,
            i <= chars.len(),
            forall|j: int| 0 <= j < i ==> filename_char(#[trigger] s@[j]),
        decreases chars.len() - i,
    {
        let c = chars[i];
        if !(c.is_alphanumeric() || c == '-' || c == '_' || c == '.') {
            assert(!filename_char(s@[i as int]));
            return false;
        }
        i += 1;
    }
    true
}

/// The place of the last dot, or -1 where there is none.
pub open spec fn last_dot(s: Seq<char>) -> int
    decreases s.len(),
{
    if s.len() == 0 {
        -1
    } else if s.last() == '.' {
        s.len() - 1
    } else {
        last_dot(s.drop_last())
    }
}

/// The extension of a file name: what follows its last dot, unless it starts there; empty where
/// there is none.
pub open spec fn filename_extension(s: Seq<char>) -> Seq<char> {
    let p = last_dot(s);
    if p > 0 {
        s.skip(p + 1)
    } else {
        Seq::empty()
    }
}

/// Only the last dot has the properties of the last dot.
proof fn lemma_last_dot_is(s: Seq<char>, p: int)
    requires
        -1 <= p < s.len(),
        p >= 0 ==> s[p] == '.',
        forall|i: int| p < i < s.len() ==> s[i] != '.',
    ensures
        last_dot(s) == p,
    decreases s.len(),
{
    if s.len() > 0 && p < s.len() - 1 {
        lemma_last_dot_is(s.drop_last(), p);
        assert(s[s.len() - 1] != '.');
    }
}

/// The extension of a file name.
pub fn extension_of_filename(s: &str) -> (extension: &str)
    ensures
        extension@ == filename_extension(s@),
{
    let chars = chars_of(s);
    let mut i: usize = chars.len();
    while i > 0
        invariant
            chars@ == s@,
            i <= chars.len(),
            forall|j: int| i <= j < chars.len() ==> s@[j] != '.',
        decreases i,
    {
        if chars[i - 1] == '.' {
            proof {
                lemma_last_dot_is(s@, i - 1);
            }
            let extension = if i > 1 {
                s.substring_char(i, chars.len())
            } else {
                ""
            };
            proof {
                reveal_strlit("");
            }
            assert(extension@ =~= filename_extension(s@));
            return extension;
        }
        i -= 1;
    }
    proof {
        lemma_last_dot_is(s@, -1);
        reveal_strlit("");
    }
    let extension = "";
    assert(extension@ =~= filename_extension(s@));
    extension
}

/// A refusal: a status code, and in words why.
pub open spec fn refusal<T>(r: Result<T, (Status, &'static str)>) -> Option<(Status, Seq<char>)> {
    match r {
        Ok(_) => None,
        Err((status, reason)) => Some((status, reason@)),
    }
}

/// Why a caller is turned away before the token is looked at: the name of the file first, then the
/// missing token.
pub open spec fn gate_refusal(filename: Seq<char>, jwt: Option<Seq<char>>) -> Option<
    (Status, Seq<char>),
> {
    if !valid_filename(filename) {
        Some((Status::BadRequest, "invalid filename"@))
    } else if jwt is None {
        Some((Status::Unauthorized, "missing jwt"@))
    } else {
        None
    }
}

/// Why a caller is turned away once the token is decoded, where it could be.
pub open spec fn token_refusal(token: Option<HtyToken>) -> Option<(Status, Seq<char>)> {
    match token {
        None => Some((Status::Unauthorized, "invalid jwt"@)),
        Some(token) => if admin_or_tester(token) {
            None
        } else {
            Some((Status::Forbidden, "insufficient permissions"@))
        },
    }
}

/// The bytes of a file, where it could be read.
pub open spec fn file_bytes(data: Option<Vec<u8>>) -> Option<Seq<u8>> {
    match data {
        Some(data) => Some(data@),
        None => None,
    }
}

/// What was served, a media type and bytes, or why nothing was.
pub open spec fn served(r: Result<(&'static str, Vec<u8>), (Status, &'static str)>) -> Result<
    (Seq<char>, Seq<u8>),
    (Status, Seq<char>),
> {
    match r {
        Ok((mime, bytes)) => Ok((mime@, bytes@)),
        Err((status, reason)) => Err((status, reason@)),
    }
}

/// What is served once the file was read, where it could be.
pub open spec fn file_answer(filename: Seq<char>, data: Option<Seq<u8>>) -> Result<
    (Seq<char>, Seq<u8>),
    (Status, Seq<char>),
> {
    match data {
        Some(bytes) => Ok((media_type_for(filename_extension(filename)), bytes)),
        None => Err((Status::NotFound, "file not found"@)),
    }
}

/// The answer to a caller who asks for an attachment: the first refusal that applies, or the file
/// with its media type.
pub open spec fn serve_answer(
    filename: Seq<char>,
    jwt: Option<Seq<char>>,
    token: Option<HtyToken>,
    data: Option<Seq<u8>>,
) -> Result<(Seq<char>, Seq<u8>), (Status, Seq<char>)> {
    if !valid_filename(filename) {
        Err((Status::BadRequest, "invalid filename"@))
    } else if jwt is None {
        Err((Status::Unauthorized, "missing jwt"@))
    } else if token is None {
        Err((Status::Unauthorized, "invalid jwt"@))
    } else if !admin_or_tester(token->0) {
        Err((Status::Forbidden, "insufficient permissions"@))
    } else if data is None {
        Err((Status::NotFound, "file not found"@))
    } else {
        Ok((media_type_for(filename_extension(filename)), data->0))
    }
}

/// The stages of serving an attachment in turn: the path that is handed out to be read, where it
/// comes to that, and the answer.
pub open spec fn serve_run(
    filename: Seq<char>,
    jwt: Option<Seq<char>>,
    token: Option<HtyToken>,
    data: Option<Seq<u8>>,
) -> (Option<Seq<char>>, Result<(Seq<char>, Seq<u8>), (Status, Seq<char>)>) {
    match gate_refusal(filename, jwt) {
        Some(refused) => (None, Err(refused)),
        None => match token_refusal(token) {
            Some(refused) => (None, Err(refused)),
            None => (Some(upload_path(filename)), file_answer(filename, data)),
        },
    }
}

/// Starts to serve an attachment: hands out the token that is to be decoded.
pub fn serve_attachment<'a>(filename: &str, params: &'a AttachmentQuery) -> (jwt: Result<
    &'a str,
    (Status, &'static str),
>)
    ensures
        refusal(jwt) == gate_refusal(filename@, params.jwt.deep_view()),
        jwt matches Ok(jwt) ==> params.jwt.deep_view() == Some(jwt@),
{
    if !is_valid_filename(filename) {
        return Err((Status::BadRequest, "invalid filename"));
    }
    match &params.jwt {
        Some(jwt) => Ok(jwt.as_str()),
        None => Err((Status::Unauthorized, "missing jwt")),
    }
}

/// Goes on with the decoded token, or without where it could not be decoded: hands out the path of
/// the file that is to be read. The name has passed `serve_attachment`.
pub fn attachment_path(filename: &str, token: Option<HtyToken>) -> (path: Result<
    String,
    (Status, &'static str),
>)
    requires
        valid_filename(filename@),
    ensures
        refusal(path) == token_refusal(token),
        path matches Ok(path) ==> path@ == upload_path(filename@),
{
    match token {
        None => Err((Status::Unauthorized, "invalid jwt")),
        Some(token) => if is_admin_or_tester(&token) {
            Ok("./uploads/".to_owned().concat(filename))
        } else {
            Err((Status::Forbidden, "insufficient permissions"))
        },
    }
}

/// Serves the file that was read, with its media type, or reports that it could not be read.
pub fn attachment_file(filename: &str, data: Option<Vec<u8>>) -> (r: Result<
    (&'static str, Vec<u8>),
    (Status, &'static str),
>)
    ensures
        served(r) == file_answer(filename@, file_bytes(data)),
{
    match data {
        Some(data) => Ok((media_type_of_extension(extension_of_filename(filename)), data)),
        None => Err((Status::NotFound, "file not found")),
    }
}

/// Serves an attachment, given what its token decodes to and what is read at its path; the first
/// refusal that applies is the answer.
pub fn attachment_answer(
    filename: &str,
    params: &AttachmentQuery,
    token: Option<HtyToken>,
    data: Option<Vec<u8>>,
) -> (r: Result<(&'static str, Vec<u8>), (Status, &'static str)>)
    ensures
        served(r) == serve_answer(filename@, params.jwt.deep_view(), token, file_bytes(data)),
{
    match serve_attachment(filename, params) {
        Err(refused) => Err(refused),
        Ok(_) => match attachment_path(filename, token) {
            Err(refused) => Err(refused),
            Ok(_) => attachment_file(filename, data),
        },
    }
}

/// A valid name holds no path separator.
pub proof fn law_valid_filename_has_no_separator(filename: Seq<char>)
    requires
        valid_filename(filename),
    ensures
        !filename.contains('/'),
        !filename.contains('\\'),
{
    assert forall|i: int| 0 <= i < filename.len() implies filename[i] != '/' && filename[i]
        != '\\' by {
        assert(filename_char(filename[i]));
    }
}

/// The extensions for media types: none holds a dot, all are valid in file names, and they differ
/// where the media types do.
proof fn lemma_extensions(mime: Seq<char>)
    ensures
        extension_for(mime).len() > 0,
        forall|i: int|
            0 <= i < extension_for(mime).len() ==> ascii_alphanumeric(
                #[trigger] extension_for(mime)[i],
            ) && extension_for(mime)[i] != '.',
        media_type_for(extension_for(mime)) == served_type(mime),
{
    reveal_strlit("jpg");
    reveal_strlit("jpeg");
    reveal_strlit("png");
    reveal_strlit("gif");
    reveal_strlit("webp");
    reveal_strlit("pdf");
    reveal_strlit("doc");
    reveal_strlit("docx");
    reveal_strlit("txt");
    reveal_strlit("bin");
    reveal_strlit("image/jpg");
    reveal_strlit("image/jpeg");
    reveal_strlit("image/png");
    reveal_strlit("image/gif");
    reveal_strlit("image/webp");
    reveal_strlit("application/pdf");
    reveal_strlit("application/msword");
    reveal_strlit("application/vnd.openxmlformats-officedocument.wordprocessingml.document");
    reveal_strlit("text/plain");
    assert("image/png"@[6] != "image/jpg"@[6]);
    assert("image/gif"@[6] != "image/jpg"@[6]);
    assert("png"@[1] != "jpg"@[1]);
    assert("gif"@[0] != "jpg"@[0] && "gif"@[0] != "png"@[0]);
    assert("webp"@[0] != "jpeg"@[0]);
    assert("pdf"@[1] != "jpg"@[1] && "pdf"@[1] != "png"@[1] && "pdf"@[1] != "gif"@[1]);
    assert("doc"@[0] != "jpg"@[0] && "doc"@[0] != "png"@[0] && "doc"@[0] != "gif"@[0] && "doc"@[0]
        != "pdf"@[0]);
    assert("docx"@[0] != "jpeg"@[0] && "docx"@[0] != "webp"@[0]);
    assert("docx"@.len() == 4);
    assert("txt"@[0] != "jpg"@[0] && "txt"@[0] != "png"@[0] && "txt"@[0] != "gif"@[0] && "txt"@[0]
        != "pdf"@[0] && "txt"@[0] != "doc"@[0]);
    assert("bin"@[0] != "jpg"@[0] && "bin"@[0] != "png"@[0] && "bin"@[0] != "gif"@[0] && "bin"@[0]
        != "pdf"@[0] && "bin"@[0] != "doc"@[0] && "bin"@[0] != "txt"@[0]);
}

/// The media type that an upload of a media type is served with.
pub open spec fn served_type(mime: Seq<char>) -> Seq<char> {
    if mime == "image/jpg"@ {
        "image/jpeg"@
    } else if extension_for(mime) == "bin"@ {
        "application/octet-stream"@
    } else {
        mime
    }
}

/// Every upload can be served: its name is valid.
pub proof fn law_upload_can_be_served(uuid: Seq<char>, mime: Option<Seq<char>>)
    requires
        uuid_text(uuid),
    ensures
        valid_filename(upload_filename(uuid, mime)),
{
    let extension = extension_for(upload_type(mime));
    lemma_extensions(upload_type(mime));
    reveal_strlit(".");
    let name = upload_filename(uuid, mime);
    assert forall|i: int| 0 <= i < name.len() implies filename_char(#[trigger] name[i]) by {
        if i < 36 {
            assert(uuid_char(i, uuid[i]));
        } else if i > 36 {
            assert(name[i] == extension[i - 37]);
        }
    }
}

/// An upload is served with the media type that it came with; `image/jpg` is served as `image/jpeg`,
/// and what has no extension of its own as plain bytes.
pub proof fn law_upload_keeps_its_media_type(uuid: Seq<char>, mime: Option<Seq<char>>)
    requires
        uuid.len() > 0,
    ensures
        media_type_for(filename_extension(upload_filename(uuid, mime))) == served_type(
            upload_type(mime),
        ),
{
    let extension = extension_for(upload_type(mime));
    lemma_extensions(upload_type(mime));
    reveal_strlit(".");
    let name = upload_filename(uuid, mime);
    let dot = uuid.len() as int;
    assert forall|i: int| dot < i < name.len() implies name[i] != '.' by {
        assert(name[i] == extension[i - dot - 1]);
    }
    lemma_last_dot_is(name, dot);
    assert(filename_extension(name) =~= extension);
}

/// The stages of serving an attachment come to the first refusal that applies, or to the file. A path
/// is handed out only for a name without a separator and a token that is admitted, and it is the path
/// of that name.
pub proof fn law_attachment_is_served_in_stages(
    filename: Seq<char>,
    jwt: Option<Seq<char>>,
    token: Option<HtyToken>,
    data: Option<Seq<u8>>,
)
    ensures
        serve_run(filename, jwt, token, data).1 == serve_answer(filename, jwt, token, data),
        serve_run(filename, jwt, token, data).0 matches Some(path) ==> {
            &&& path == upload_path(filename)
            &&& !filename.contains('/')
            &&& !filename.contains('\\')
            &&& token is Some
            &&& admin_or_tester(token->0)
        },
{
    if valid_filename(filename) {
        law_valid_filename_has_no_separator(filename);
    }
}

/// Only administrators and testers fetch attachments, with a valid name and a token that can be
/// decoded; all of them may.
pub proof fn law_only_admins_and_testers_fetch_attachments(
    filename: Seq<char>,
    jwt: Option<Seq<char>>,
    token: Option<HtyToken>,
)
    ensures
        gate_refusal(filename, jwt) is None && token_refusal(token) is None <==> valid_filename(
            filename,
        ) && jwt is Some && token is Some && admin_or_tester(token->0),
{
}

/// Whether a text is one of the media types that have an extension of their own.
pub open spec fn kept_type(mime: Seq<char>) -> bool {
    ||| mime == "image/jpeg"@
    ||| mime == "image/png"@
    ||| mime == "image/gif"@
    ||| mime == "image/webp"@
    ||| mime == "application/pdf"@
    ||| mime == "application/msword"@
    ||| mime == "application/vnd.openxmlformats-officedocument.wordprocessingml.document"@
    ||| mime == "text/plain"@
}

/// An upload of a media type that has an extension of its own is served with that type, `image/jpg` as
/// `image/jpeg`, and any other as plain bytes, as is one without a type.
pub proof fn law_media_types_come_back(uuid: Seq<char>, mime: Seq<char>)
    requires
        uuid.len() > 0,
    ensures
        ({
            let back = media_type_for(filename_extension(upload_filename(uuid, Some(mime))));
            &&& kept_type(mime) ==> back == mime
            &&& mime == "image/jpg"@ ==> back == "image/jpeg"@
            &&& !kept_type(mime) && mime != "image/jpg"@ ==> back == "application/octet-stream"@
        }),
        media_type_for(filename_extension(upload_filename(uuid, None)))
            == "application/octet-stream"@,
{
    law_upload_keeps_its_media_type(uuid, Some(mime));
    law_upload_keeps_its_media_type(uuid, None);
    lemma_extensions(mime);
    reveal_strlit("jpg");
    reveal_strlit("png");
    reveal_strlit("gif");
    reveal_strlit("webp");
    reveal_strlit("pdf");
    reveal_strlit("doc");
    reveal_strlit("docx");
    reveal_strlit("txt");
    reveal_strlit("bin");
    reveal_strlit("image/jpg");
    reveal_strlit("image/jpeg");
    reveal_strlit("image/png");
    reveal_strlit("image/gif");
    reveal_strlit("image/webp");
    reveal_strlit("application/pdf");
    reveal_strlit("application/msword");
    reveal_strlit("application/octet-stream");
    reveal_strlit("application/vnd.openxmlformats-officedocument.wordprocessingml.document");
    reveal_strlit("text/plain");
    let n = "application/octet-stream"@.len();
    assert(n == 24 && "image/jpeg"@.len() == 10 && "image/png"@.len() == 9 && "image/gif"@.len() == 9
        && "image/webp"@.len() == 10 && "application/pdf"@.len() == 15 && "application/msword"@.len()
        == 18 && "text/plain"@.len() == 10 && "image/jpg"@.len() == 9);
    assert("application/vnd.openxmlformats-officedocument.wordprocessingml.document"@.len() == 71);
    assert("bin"@[0] != "jpg"@[0] && "bin"@[0] != "png"@[0] && "bin"@[0] != "gif"@[0] && "bin"@[0]
        != "pdf"@[0] && "bin"@[0] != "doc"@[0] && "bin"@[0] != "txt"@[0]);
    assert("bin"@.len() == 3 && "webp"@.len() == 4 && "docx"@.len() == 4);
    assert("image/png"@[6] != "image/jpg"@[6]);
    assert("image/gif"@[6] != "image/jpg"@[6]);
}

/// Only the extensions that are known have a media type other than plain bytes.
pub proof fn law_unknown_extensions_are_plain_bytes(extension: Seq<char>)
    requires
        extension != "jpg"@ && extension != "jpeg"@ && extension != "png"@ && extension != "gif"@
            && extension != "webp"@ && extension != "pdf"@ && extension != "doc"@ && extension
            != "docx"@ && extension != "txt"@,
    ensures
        media_type_for(extension) == "application/octet-stream"@,
{
}

/// An upload is named by its uuid, whole, and its extension, and the answer tells the caller the uuid
/// and the address under which the file of that name is served. What could not be written is an
/// internal error.
pub proof fn law_upload_is_answered_with_its_address(
    uuid: Seq<char>,
    mime: Seq<char>,
    filename: Seq<char>,
)
    ensures
        upload_filename(uuid, Some(mime)) == uuid + ("."@ + extension_for(mime)),
        upload_filename(uuid, None) == uuid + ".bin"@,
        upload_path(filename) == "./uploads/"@ + filename,
        upload_answer(uuid, filename, true) matches Ok(resp) && resp.r && resp.e is None
            && resp.hty_err is None && (resp.d matches Some(JsonView::Object(m)) && m.dom() == set![
            "url"@,
            "uuid"@,
        ] && m["url"@] == JsonView::Str("/api/v2/ts/attachment/"@ + filename) && m["uuid"@]
            == JsonView::Str(uuid)),
        upload_answer(uuid, filename, false) == Err::<HtyResponseView<JsonView>, Status>(
            Status::InternalServerError,
        ),
{
    reveal_strlit("url");
    reveal_strlit("uuid");
    assert("url"@.len() == 3 && "uuid"@.len() == 4);
    assert(upload_data(uuid, filename)->Object_0.dom() =~= set!["url"@, "uuid"@]);
    assert(upload_filename(uuid, Some(mime)) =~= uuid + ("."@ + extension_for(mime)));
    reveal_strlit(".");
    reveal_strlit("bin");
    reveal_strlit(".bin");
    reveal_strlit("image/jpg");
    reveal_strlit("image/jpeg");
    reveal_strlit("image/png");
    reveal_strlit("image/gif");
    reveal_strlit("image/webp");
    reveal_strlit("application/pdf");
    reveal_strlit("application/msword");
    reveal_strlit("application/octet-stream");
    reveal_strlit("application/vnd.openxmlformats-officedocument.wordprocessingml.document");
    reveal_strlit("text/plain");
    assert("application/octet-stream"@.len() == 24);
    assert("application/vnd.openxmlformats-officedocument.wordprocessingml.document"@.len() == 71);
    assert(extension_for("application/octet-stream"@) == "bin"@);
    assert("."@ + "bin"@ =~= ".bin"@);
    assert(upload_filename(uuid, None) =~= uuid + ".bin"@);
}

/// Different uploads are kept in different files.
pub proof fn law_uploads_are_kept_apart(a: Seq<char>, b: Seq<char>, mime: Option<Seq<char>>)
    requires
        a != b,
    ensures
        upload_filename(a, mime) != upload_filename(b, mime),
        upload_path(a) != upload_path(b),
{
    crate::gitea::lemma_between(Seq::empty(), a, b, "."@ + extension_for(upload_type(mime)));
    let end = "."@ + extension_for(upload_type(mime));
    assert(Seq::<char>::empty() + a + end =~= upload_filename(a, mime));
    assert(Seq::<char>::empty() + b + end =~= upload_filename(b, mime));
    crate::gitea::lemma_between("./uploads/"@, a, b, Seq::empty());
    assert("./uploads/"@ + a + Seq::<char>::empty() =~= upload_path(a));
    assert("./uploads/"@ + b + Seq::<char>::empty() =~= upload_path(b));
}

/// The extension of a name is all that follows its last dot; a name without a dot, or with none but
/// the one it starts with, has no extension.
pub proof fn law_extension_follows_the_last_dot(stem: Seq<char>, extension: Seq<char>)
    requires
        !extension.contains('.'),
    ensures
        stem.len() > 0 ==> filename_extension(stem + seq!['.'] + extension) == extension,
        filename_extension(extension) == Seq::<char>::empty(),
        filename_extension(seq!['.'] + extension) == Seq::<char>::empty(),
{
    assert forall|i: int| 0 <= i < extension.len() implies extension[i] != '.' by {
        assert(extension.contains(extension[i]));
    }
    let name = stem + seq!['.'] + extension;
    let dot = stem.len() as int;
    assert forall|i: int| dot < i < name.len() implies name[i] != '.' by {
        assert(name[i] == extension[i - dot - 1]);
    }
    lemma_last_dot_is(name, dot);
    assert(name.skip(dot + 1) =~= extension);
    lemma_last_dot_is(extension, -1);
    let hidden = seq!['.'] + extension;
    assert forall|i: int| 0 < i < hidden.len() implies hidden[i] != '.' by {
        assert(hidden[i] == extension[i - 1]);
    }
    lemma_last_dot_is(hidden, 0);
}

/// A name is valid where each of its characters is: a letter or digit of any script, a hyphen, an
/// underscore or a dot. The empty name is valid.
pub proof fn law_names_are_checked_by_character(a: Seq<char>, b: Seq<char>, c: char)
    ensures
        valid_filename(Seq::empty()),
        valid_filename(a + b) <==> valid_filename(a) && valid_filename(b),
        (c as u32) < 128 ==> (valid_filename(seq![c]) <==> '0' <= c <= '9' || 'A' <= c <= 'Z' || 'a'
            <= c <= 'z' || c == '-' || c == '_' || c == '.'),
        (c as u32) >= 128 ==> (valid_filename(seq![c]) <==> crate::text::unicode_alphanumeric(c)),
{
    let ab = a + b;
    if valid_filename(ab) {
        assert forall|i: int| 0 <= i < a.len() implies filename_char(#[trigger] a[i]) by {
            assert(ab[i] == a[i]);
        }
        assert forall|i: int| 0 <= i < b.len() implies filename_char(#[trigger] b[i]) by {
            assert(ab[i + a.len()] == b[i]);
        }
    }
    if valid_filename(a) && valid_filename(b) {
        assert forall|i: int| 0 <= i < ab.len() implies filename_char(#[trigger] ab[i]) by {
            if i < a.len() {
                assert(ab[i] == a[i]);
            } else {
                assert(ab[i] == b[i - a.len()]);
            }
        }
    }
    if valid_filename(seq![c]) {
        assert(filename_char(seq![c][0]));
    }
}

/// Every answer to a caller who asks for an attachment: the refusals in their order, and otherwise
/// all bytes of the file with the media type of its name.
pub proof fn law_attachment_answers(
    filename: Seq<char>,
    jwt: Option<Seq<char>>,
    token: Option<HtyToken>,
    data: Option<Seq<u8>>,
)
    ensures
        ({
            let r = serve_run(filename, jwt, token, data).1;
            let named = valid_filename(filename);
            let admitted = token matches Some(t) && admin_or_tester(t);
            &&& r is Ok <==> named && jwt is Some && admitted && data is Some
            &&& r matches Ok((mime, bytes)) ==> bytes == data->0 && mime == media_type_for(
                filename_extension(filename),
            )
            &&& r matches Err((status, reason)) ==> {
                &&& status == Status::BadRequest <==> !named
                &&& status == Status::Unauthorized <==> named && (jwt is None || token is None)
                &&& status == Status::Forbidden <==> named && jwt is Some && token is Some
                    && !admitted
                &&& status == Status::NotFound <==> named && jwt is Some && admitted && data is None
                &&& !named ==> reason == "invalid filename"@
                &&& named && jwt is None ==> reason == "missing jwt"@
                &&& named && jwt is Some && token is None ==> reason == "invalid jwt"@
                &&& status == Status::Forbidden ==> reason == "insufficient permissions"@
                &&& status == Status::NotFound ==> reason == "file not found"@
            }
        }),
{
}

/// What is said of a refusal, of a file and of what was served is what they hold.
pub proof fn law_serving_says_what_it_holds(
    status: Status,
    reason: &'static str,
    mime: &'static str,
    bytes: Vec<u8>,
)
    ensures
        refusal(Err::<String, (Status, &'static str)>((status, reason))) == Some((status, reason@)),
        served(Err((status, reason))) == Err::<(Seq<char>, Seq<u8>), (Status, Seq<char>)>(
            (status, reason@),
        ),
        served(Ok((mime, bytes))) == Ok::<(Seq<char>, Seq<u8>), (Status, Seq<char>)>(
            (mime@, bytes@),
        ),
        file_bytes(Some(bytes)) == Some(bytes@),
        file_bytes(None) is None,
{
}

} // verus!
