//! The client side of the planning service's protocol: what is asked, and
//! how an answer is read. Sending and receiving are left to the caller.

use crate::models::{ApiResponse, Period, PlanData, PlanRequest, Task};
use crate::text::{decimal, decimal_string};
use crate::time::{spans_one_day, today_window};
use vstd::prelude::*;
use vstd::string::StringExecFns;

verus! {

/// Why a load of the plan failed.
#[derive(Debug, Clone, PartialEq)]
pub enum ApiError {
    /// The request could not be completed; the text says why.
    Network(String),
    /// The answer did not have the expected shape; the text says why.
    Parse(String),
    /// The service answered and reported a failure.
    Business { code: u32, message: String },
    /// The credential was rejected.
    Auth,
}

/// The mathematical value of an [`ApiError`].
pub ghost enum ApiErrorView {
    Network(Seq<char>),
    Parse(Seq<char>),
    Business { code: u32, message: Seq<char> },
    Auth,
}

impl View for ApiError {
    type V = ApiErrorView;

    open spec fn view(&self) -> ApiErrorView {
        match self {
            ApiError::Network(text) => ApiErrorView::Network(text@),
            ApiError::Parse(text) => ApiErrorView::Parse(text@),
            ApiError::Business { code, message } => ApiErrorView::Business {
                code: *code,
                message: message@,
            },
            ApiError::Auth => ApiErrorView::Auth,
        }
    }
}

/// The line that describes an error to the user.
pub open spec fn error_text(error: ApiErrorView) -> Seq<char> {
    match error {
        ApiErrorView::Network(text) => "网络错误: "@ + text,
        ApiErrorView::Parse(text) => "解析错误: "@ + text,
        ApiErrorView::Business { code, message } => "API错误 "@ + decimal(code as nat) + ": "@
            + message,
        ApiErrorView::Auth => "认证错误"@,
    }
}

impl ApiError {
    /// The line that describes this error to the user.
    pub fn display(&self) -> (r: String)
        ensures
            r@ == error_text(self@),
    {
        match self {
            ApiError::Network(text) => {
                let mut line = String::from_str("网络错误: ");
                line.append(text.as_str());
                line
            },
            ApiError::Parse(text) => {
                let mut line = String::from_str("解析错误: ");
                line.append(text.as_str());
                line
            },
            ApiError::Business { code, message } => {
                let mut line = String::from_str("API错误 ");
                let number = decimal_string(*code);
                line.append(number.as_str());
                line.append(": ");
                line.append(message.as_str());
                line
            },
            ApiError::Auth => String::from_str("认证错误"),
        }
    }
}

/// The status code of an HTTP answer: a number from 100 to 999.
#[derive(Debug, Clone, Copy, PartialEq, Eq)]
pub struct HttpStatus {
    code: u16,
}

/// The text that `reqwest::StatusCode` displays for the status code `code`:
/// the number and the standard phrase that goes with it.
pub uninterp spec fn status_line(code: u16) -> Seq<char>;

/// Calls `reqwest::StatusCode::from_u16` and the `Display` of the status it
/// returns. `from_u16` accepts exactly the codes from 100 to 999; the text
/// depends on the code alone.
#[verifier::external_body]
fn status_to_string(code: u16) -> (line: String)
    requires
        100 <= code <= 999,
    ensures
        line@ == status_line(code),
{
    match reqwest::StatusCode::from_u16(code) {
        Ok(status) => status.to_string(),
        Err(_) => String::new(),
    }
}

impl HttpStatus {
    #[verifier::type_invariant]
    spec fn in_range(&self) -> bool {
        100 <= self.code <= 999
    }

    /// The number of the status.
    pub closed spec fn value(&self) -> u16 {
        self.code
    }

    /// The status with the number `code`, if `code` is one: from 100 to 999.
    pub fn new(code: u16) -> (r: Option<HttpStatus>)
        ensures
            r is Some <==> 100 <= code <= 999,
            r matches Some(status) ==> status.value() == code,
    {
        if 100 <= code && code <= 999 {
            Some(HttpStatus { code })
        } else {
            None
        }
    }

    /// The number of the status.
    pub fn as_u16(&self) -> (r: u16)
        ensures
            r == self.value(),
            100 <= r <= 999,
    {
        proof {
            use_type_invariant(self);
        }
        self.code
    }

    /// The status reports success: its number is in the two hundreds.
    pub open spec fn spec_is_success(&self) -> bool {
        200 <= self.value() < 300
    }

    /// Tells whether the status reports success.
    #[verifier::when_used_as_spec(spec_is_success)]
    pub fn is_success(&self) -> (r: bool)
        ensures
            r == self.spec_is_success(),
    {
        200 <= self.code && self.code < 300
    }

    /// The number of the status and its standard phrase.
    pub fn line(&self) -> (r: String)
        ensures
            r@ == status_line(self.value()),
    {
        proof {
            use_type_invariant(self);
        }
        status_to_string(self.code)
    }
}

/// The error that stands for an answer whose status `code` does not report
/// success; `line` is the status as text.
pub fn http_failure(code: u16, line: &str) -> (error: ApiError)
    ensures
        error@ == (ApiErrorView::Business { code: code as u32, message: "HTTP错误: "@ + line@ }),
{
    let mut message = String::from_str("HTTP错误: ");
    message.append(line);
    ApiError::Business { code: code as u32, message }
}

/// Accepts an answer whose status reports success and turns any other into
/// the error that carries the status.
pub fn check_status(status: &HttpStatus) -> (r: Result<(), ApiError>)
    ensures
        status.is_success() ==> r is Ok,
        !status.is_success() ==> (r matches Err(error) && error@ == (ApiErrorView::Business {
            code: status.value() as u32,
            message: "HTTP错误: "@ + status_line(status.value()),
        })),
{
    if status.is_success() {
        Ok(())
    } else {
        let line = status.line();
        Err(http_failure(status.as_u16(), line.as_str()))
    }
}

/// Reads the envelope of an answer: the tasks of the plan where the service
/// reports success, else the code and message that it reports.
pub fn read_envelope(envelope: ApiResponse<PlanData>) -> (r: Result<Vec<Task>, ApiError>)
    ensures
        envelope.success ==> r == Ok::<Vec<Task>, ApiError>(envelope.data.tasks),
        !envelope.success ==> r == Err::<Vec<Task>, ApiError>(
            ApiError::Business { code: envelope.code, message: envelope.message },
        ),
{
    if !envelope.success {
        return Err(ApiError::Business { code: envelope.code, message: envelope.message });
    }
    Ok(envelope.data.tasks)
}

/// The address and protocol details of the planning service.
#[derive(Debug, Clone, PartialEq)]
pub struct ApiClient {
    base_url: String,
}

impl ApiClient {
    /// The address that the paths of the service are appended to.
    pub closed spec fn base(&self) -> Seq<char> {
        self.base_url@
    }

    /// A client for the service at `base_url`.
    pub fn new(base_url: String) -> (r: ApiClient)
        ensures
            r.base() == base_url@,
    {
        ApiClient { base_url }
    }

    /// The address that the paths of the service are appended to.
    pub fn base_url(&self) -> (r: &String)
        ensures
            r@ == self.base(),
    {
        &self.base_url
    }

    /// The address that plans are asked from.
    pub fn plans_url(&self) -> (r: String)
        ensures
            r@ == self.base() + "/api/v1/plans"@,
    {
        let mut url = self.base_url.clone();
        url.append("/api/v1/plans");
        url
    }

    /// The value of the `Authorization` header of every request.
    pub fn authorization(&self) -> (r: &'static str)
        ensures
            r@ == "Bearer your_session_id"@,
    {
        "Bearer your_session_id"
    }

    /// The request for the plan of the day that `window` covers.
    pub fn day_plan_request(window: &Period) -> (r: PlanRequest)
        ensures
            r.period_type@ == "day"@,
            r.start_date == window.start,
            r.end_date == window.end,
    {
        PlanRequest {
            period_type: String::from_str("day"),
            start_date: window.start,
            end_date: window.end,
        }
    }

    /// The request for the plan of the day that `window` covers. Where there
    /// is no window, because the day has no single start in the time zone of
    /// the machine, no request can be made: that is reported as a call that
    /// could not be completed.
    pub fn plan_request_for(window: Option<Period>) -> (r: Result<PlanRequest, ApiError>)
        ensures
            match window {
                Some(day) => (r matches Ok(request) && request.period_type@ == "day"@
                    && request.start_date == day.start && request.end_date == day.end),
                None => (r matches Err(error) && error@ == no_window_error()),
            },
    {
        match window {
            Some(day) => Ok(ApiClient::day_plan_request(&day)),
            None => Err(no_window_failure()),
        }
    }

    /// The request for today's plan: for the day that begins at the local
    /// midnight of the current UTC date. The clock and the time zone of the
    /// machine decide whether there is such a day; where there is none, the
    /// failure is the one that [`ApiClient::plan_request_for`] reports.
    pub fn today_plan_request() -> (r: Result<PlanRequest, ApiError>)
        ensures
            match r {
                Ok(request) => request.period_type@ == "day"@ && spans_one_day(
                    Period { start: request.start_date, end: request.end_date },
                ),
                Err(error) => error@ == no_window_error(),
            },
    {
        ApiClient::plan_request_for(today_window())
    }
}

/// The error that stands for a day without a single start.
pub open spec fn no_window_error() -> ApiErrorView {
    ApiErrorView::Network("无法确定今日的起始时间"@)
}

/// The error that stands for a day without a single start, or with one that
/// no request can carry.
pub fn no_window_failure() -> (error: ApiError)
    ensures
        error@ == no_window_error(),
{
    ApiError::Network(String::from_str("无法确定今日的起始时间"))
}

} // verus!
