//! What the service answers.
use vstd::prelude::*;

verus! {

/// The HTTP status codes that the service answers with.
#[derive(Clone, Copy, Debug, PartialEq, Eq, Structural)]
pub enum Status {
    Success,
    BadRequest,
    Unauthorized,
    Forbidden,
    NotFound,
    InternalServerError,
}

/// Why a request was refused.
#[derive(Clone, Copy, Debug, PartialEq, Eq, Structural)]
pub enum HtyErrCode {
    AuthenticationFailed,
}

/// A refusal, with its reason in words.
#[derive(Debug, PartialEq)]
pub struct HtyErr {
    pub code: HtyErrCode,
    pub reason: Option<String>,
}

/// The envelope of every answer: `r` tells whether the request succeeded, `d` holds the data, `e`
/// the error in words.
#[derive(Debug, PartialEq)]
pub struct HtyResponse<T> {
    pub r: bool,
    pub d: Option<T>,
    pub e: Option<String>,
    pub hty_err: Option<HtyErr>,
}

/// What an `HtyErr` says.
pub struct HtyErrView {
    pub code: HtyErrCode,
    pub reason: Option<Seq<char>>,
}

/// What an `HtyResponse` says.
pub struct HtyResponseView<V> {
    pub r: bool,
    pub d: Option<V>,
    pub e: Option<Seq<char>>,
    pub hty_err: Option<HtyErrView>,
}

impl DeepView for HtyErr {
    type V = HtyErrView;

    open spec fn deep_view(&self) -> HtyErrView {
        HtyErrView { code: self.code, reason: self.reason.deep_view() }
    }
}

impl<T: DeepView> DeepView for HtyResponse<T> {
    type V = HtyResponseView<T::V>;

    open spec fn deep_view(&self) -> HtyResponseView<T::V> {
        HtyResponseView {
            r: self.r,
            d: self.d.deep_view(),
            e: self.e.deep_view(),
            hty_err: self.hty_err.deep_view(),
        }
    }
}

/// What an answer says, or the status code with which there is none.
pub open spec fn answer<T: DeepView>(r: Result<HtyResponse<T>, Status>) -> Result<
    HtyResponseView<T::V>,
    Status,
> {
    match r {
        Ok(resp) => Ok(resp.deep_view()),
        Err(status) => Err(status),
    }
}

/// The answer that carries `d`.
pub open spec fn ok_view<V>(d: V) -> HtyResponseView<V> {
    HtyResponseView { r: true, d: Some(d), e: None, hty_err: None }
}

/// The answer that reports a failure in words and carries no data.
pub open spec fn failed_view<V>(e: Seq<char>) -> HtyResponseView<V> {
    HtyResponseView { r: false, d: None, e: Some(e), hty_err: None }
}

/// The answer to a caller who may not do what was asked.
pub open spec fn forbidden_view<V>(reason: Seq<char>) -> HtyResponseView<V> {
    HtyResponseView {
        r: false,
        d: None,
        e: Some(reason),
        hty_err: Some(
            HtyErrView { code: HtyErrCode::AuthenticationFailed, reason: Some(reason) },
        ),
    }
}

/// Wraps data in the envelope of a success.
pub fn wrap_ok_resp<T: DeepView>(d: T) -> (resp: HtyResponse<T>)
    ensures
        resp.deep_view() == ok_view(d.deep_view()),
{
    HtyResponse { r: true, d: Some(d), e: None, hty_err: None }
}

/// Wraps a failure in words.
pub fn failed_resp<T: DeepView>(e: String) -> (resp: HtyResponse<T>)
    ensures
        resp.deep_view() == failed_view::<T::V>(e@),
{
    HtyResponse { r: false, d: None, e: Some(e), hty_err: None }
}

/// Refuses a caller, with the reason in words.
pub fn forbidden_resp<T: DeepView>(reason: &str) -> (resp: HtyResponse<T>)
    ensures
        resp.deep_view() == forbidden_view::<T::V>(reason@),
{
    HtyResponse {
        r: false,
        d: None,
        e: Some(reason.to_owned()),
        hty_err: Some(
            HtyErr {
                code: HtyErrCode::AuthenticationFailed,
                reason: Some(reason.to_owned()),
            },
        ),
    }
}

/// What an answer says is what its fields hold.
pub proof fn law_answer_says_what_it_holds<T: DeepView>(resp: HtyResponse<T>, status: Status)
    ensures
        answer(Ok::<HtyResponse<T>, Status>(resp)) matches Ok(said) && {
            &&& said.r == resp.r
            &&& said.d is Some <==> resp.d is Some
            &&& resp.d matches Some(d) ==> said.d == Some(d.deep_view())
            &&& said.e is Some <==> resp.e is Some
            &&& resp.e matches Some(e) ==> said.e == Some(e@)
            &&& said.hty_err is Some <==> resp.hty_err is Some
            &&& resp.hty_err matches Some(err) ==> said.hty_err matches Some(s) && s.code == err.code
                && (s.reason is Some <==> err.reason is Some) && (err.reason matches Some(r)
                ==> s.reason == Some(r@))
        },
        answer(Err::<HtyResponse<T>, Status>(status)) == Err::<HtyResponseView<T::V>, Status>(
            status,
        ),
{
}

/// An answer carries either data or an error in words, and says which; only a refusal carries a code,
/// with the same words.
pub proof fn law_answers_carry_data_or_an_error<V>(d: V, e: Seq<char>)
    ensures
        ok_view(d).r && ok_view(d).d == Some(d) && ok_view(d).e is None && ok_view(
            d,
        ).hty_err is None,
        !failed_view::<V>(e).r && failed_view::<V>(e).d is None && failed_view::<V>(e).e == Some(e)
            && failed_view::<V>(e).hty_err is None,
        !forbidden_view::<V>(e).r && forbidden_view::<V>(e).d is None && forbidden_view::<V>(e).e
            == Some(e) && forbidden_view::<V>(e).hty_err == Some(
            HtyErrView { code: HtyErrCode::AuthenticationFailed, reason: Some(e) },
        ),
{
}

} // verus!
