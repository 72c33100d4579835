//! Forwarding one record to the remote logging service: what is sent, and
//! what the answer means. The request itself is made by the caller.

use crate::qso::{encode, QSO};
use crate::settings::Settings;
use crate::text::{contains_text, has_substring, trim, trimmed};
use vstd::prelude::*;
use vstd::string::*;

verus! {

/// The number of seconds after which a request is given up.
pub const REQUEST_TIMEOUT_SECS: u64 = 5;

/// One HTTP POST request, ready to be made.
#[derive(Debug)]
pub struct Request {
    /// Where to post to.
    pub url: String,
    /// Value of the `Content-Type` header.
    pub content_type: String,
    /// Value of the `User-Agent` header.
    pub user_agent: String,
    /// The body: a JSON object.
    pub body: String,
    /// Seconds after which the request is given up.
    pub timeout_secs: u64,
    /// Whether a certificate that does not validate is accepted.
    pub accept_invalid_certs: bool,
}

/// Why a record was not logged.
#[derive(Debug)]
pub enum SendError {
    /// The answer was an HTML page: the address is not that of the service.
    WrongUrl,
    /// The service refused the record; this is the body of its answer.
    Rejected(String),
    /// The request did not get through; this is what the transport said.
    Transport(String),
}

/// The outcome of one attempt to forward a record.
#[derive(Debug)]
pub enum Status {
    /// The service took the record; this is the body of its answer, as it
    /// came.
    Success(String),
    /// The record was not logged; this says why.
    Failure(String),
}

/// The JSON text of a string: what `serde_json::to_string` returns for a
/// string slice.
pub uninterp spec fn json_string_text(s: Seq<char>) -> Seq<char>;

/// Calls `serde_json::to_string` on a string slice. Encoding a string
/// cannot fail: it is written into a buffer in memory, and neither of the
/// two causes that the encoder names, a value that refuses and a map with
/// keys that are no strings, can come from a string. The text depends on the
/// characters of the slice alone. Assumed, not proved.
#[verifier::external_body]
fn json_string(s: &str) -> (text: String)
    ensures
        text@ == json_string_text(s@),
{
    serde_json::to_string(s).unwrap_or_default()
}

/// Whether an HTTP status code lies in the success range.
pub open spec fn is_success(status: u16) -> bool {
    200 <= status < 300
}

/// The body of a request, from the JSON texts of its four values.
pub open spec fn payload_text(
    key: Seq<char>,
    station: Seq<char>,
    kind: Seq<char>,
    record: Seq<char>,
) -> Seq<char> {
    "{\"key\":"@ + key + ",\"station_profile_id\":"@ + station + ",\"type\":"@ + kind
        + ",\"string\":"@ + record + "}"@
}

/// The body that forwards a record: the API key and the station profile,
/// both trimmed, the type `adif`, and the encoded record, each as a JSON
/// string.
pub open spec fn body_text(key: Seq<char>, station: Seq<char>, record: Seq<char>) -> Seq<char> {
    payload_text(
        json_string_text(trim(key)),
        json_string_text(trim(station)),
        json_string_text("adif"@),
        json_string_text(record),
    )
}

/// What the answer to a request means for the record.
pub open spec fn outcome(status: u16, body: Seq<char>) -> Result<Seq<char>, SendErrorView> {
    if is_success(status) {
        Ok(body)
    } else if has_substring(body, "html>"@) {
        Err(SendErrorView::WrongUrl)
    } else {
        Err(SendErrorView::Rejected(body))
    }
}

/// The mathematical value of a [`SendError`].
pub enum SendErrorView {
    WrongUrl,
    Rejected(Seq<char>),
    Transport(Seq<char>),
}

/// The mathematical value of a [`Status`].
pub enum StatusView {
    Success(Seq<char>),
    Failure(Seq<char>),
}

impl View for Status {
    type V = StatusView;

    open spec fn view(&self) -> StatusView {
        match *self {
            Status::Success(body) => StatusView::Success(body@),
            Status::Failure(why) => StatusView::Failure(why@),
        }
    }
}

impl View for SendError {
    type V = SendErrorView;

    open spec fn view(&self) -> SendErrorView {
        match *self {
            SendError::WrongUrl => SendErrorView::WrongUrl,
            SendError::Rejected(body) => SendErrorView::Rejected(body@),
            SendError::Transport(why) => SendErrorView::Transport(why@),
        }
    }
}

/// The line of text that describes an error.
pub open spec fn error_text(e: SendErrorView) -> Seq<char> {
    match e {
        SendErrorView::WrongUrl => "Wrong URL"@,
        SendErrorView::Rejected(body) => body,
        SendErrorView::Transport(why) => why,
    }
}

/// The status of an attempt: a success with the body of the answer as it
/// came, or a failure with the error's text.
pub open spec fn status_for(result: Result<Seq<char>, SendErrorView>) -> StatusView {
    match result {
        Ok(body) => StatusView::Success(body),
        Err(e) => StatusView::Failure(error_text(e)),
    }
}

/// What is displayed for a status: `OK` for a success, `Error` for a
/// failure.
pub open spec fn status_display(status: StatusView) -> Seq<char> {
    match status {
        StatusView::Success(_) => "OK"@,
        StatusView::Failure(_) => "Error"@,
    }
}

impl SendError {
    /// The error as a line of text.
    pub fn message(&self) -> (text: String)
        ensures
            text@ == error_text(self@),
    {
        match self {
            SendError::WrongUrl => String::from_str("Wrong URL"),
            SendError::Rejected(body) => body.clone(),
            SendError::Transport(why) => why.clone(),
        }
    }
}

/// Whether an HTTP status code lies in the success range, 200 to 299.
pub fn status_is_success(status: u16) -> (success: bool)
    ensures
        success == is_success(status),
{
    200 <= status && status < 300
}

/// Puts the four JSON texts of a request body into its frame.
pub fn frame_payload(key: &str, station: &str, kind: &str, record: &str) -> (body: String)
    ensures
        body@ == payload_text(key@, station@, kind@, record@),
{
    let mut body = String::from_str("{\"key\":");
    body.append(key);
    body.append(",\"station_profile_id\":");
    body.append(station);
    body.append(",\"type\":");
    body.append(kind);
    body.append(",\"string\":");
    body.append(record);
    body.append("}");
    body
}

/// Builds the body that forwards a record.
pub fn payload_body(key: &str, station: &str, record: &str) -> (body: String)
    ensures
        body@ == body_text(key@, station@, record@),
{
    let key = json_string(trimmed(key).as_str());
    let station = json_string(trimmed(station).as_str());
    let kind = json_string("adif");
    let record = json_string(record);
    frame_payload(key.as_str(), station.as_str(), kind.as_str(), record.as_str())
}

/// The request that forwards a record: a POST of the body to `/api/qso`
/// under the service's address, as JSON, in the name of this client and its
/// version, given up after five seconds, with any certificate accepted.
pub fn request_for(qso: &QSO, settings: &Settings, version: &str) -> (request: Request)
    ensures
        request.url@ == settings.wavelog.url@ + "/api/qso"@,
        request.content_type@ == "application/json"@,
        request.user_agent@ == "RustClient_v"@ + version@,
        request.body@ == body_text(
            settings.wavelog.key@,
            settings.wavelog.station@,
            encode(qso@),
        ),
        request.timeout_secs == REQUEST_TIMEOUT_SECS,
        request.accept_invalid_certs,
{
    let adif = qso.to_adif();
    let body = payload_body(
        settings.wavelog.key.as_str(),
        settings.wavelog.station.as_str(),
        adif.as_str(),
    );
    let mut url = settings.wavelog.url.clone();
    url.append("/api/qso");
    let mut user_agent = String::from_str("RustClient_v");
    user_agent.append(version);
    Request {
        url,
        content_type: String::from_str("application/json"),
        user_agent,
        body,
        timeout_secs: REQUEST_TIMEOUT_SECS,
        accept_invalid_certs: true,
    }
}

/// Says what the answer to a request means: the body of a successful
/// answer is handed on as it is; an unsuccessful answer that holds `html>`
/// is taken for a page from a wrong address; any other is a refusal, with the
/// body as its reason.
pub fn classify(status: u16, body: String) -> (r: Result<String, SendError>)
    ensures
        (match r {
            Ok(text) => Ok(text@),
            Err(e) => Err(e@),
        }) == outcome(status, body@),
{
    if status_is_success(status) {
        Ok(body)
    } else if contains_text(body.as_str(), "html>") {
        Err(SendError::WrongUrl)
    } else {
        Err(SendError::Rejected(body))
    }
}

/// The status of an attempt: a success keeps the body of the answer as it
/// came, a failure the error's text.
pub fn status_of(result: Result<String, SendError>) -> (status: Status)
    ensures
        status@ == status_for(
            match result {
                Ok(body) => Ok(body@),
                Err(e) => Err(e@),
            },
        ),
{
    match result {
        Ok(body) => Status::Success(body),
        Err(e) => Status::Failure(e.message()),
    }
}

impl Status {
    /// What is displayed for the status: `OK` for a success, `Error` for a
    /// failure.
    pub fn display(&self) -> (text: &'static str)
        ensures
            text@ == status_display(self@),
    {
        match self {
            Status::Success(_) => "OK",
            Status::Failure(_) => "Error",
        }
    }

    /// The text that the status carries: the body of the answer, or why the
    /// record was not logged.
    pub fn detail(&self) -> (text: &String)
        ensures
            text@ == (match self@ {
                StatusView::Success(body) => body,
                StatusView::Failure(why) => why,
            }),
    {
        match self {
            Status::Success(body) => body,
            Status::Failure(why) => why,
        }
    }
}

} // verus!
