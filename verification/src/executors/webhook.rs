//! Webhook actions: request checks, capped response capture and the outcome
//! of one HTTP POST.
use std::collections::HashMap;
use vstd::prelude::*;
use vstd::utf8::{decode_utf8, valid_utf8};

use crate::text::{decimal, decimal_string};

verus! {

/// An HTTP POST to `url` with `payload` (an empty JSON object when absent) as
/// body and `headers` passed on verbatim.
#[derive(Debug)]
pub struct WebhookAction {
    pub url: String,
    pub headers: HashMap<String, String>,
    pub payload: Option<serde_json::Value>,
}

/// What a [`WebhookAction`] holds, as values.
pub struct WebhookActionView {
    pub url: Seq<char>,
    pub headers: Map<String, String>,
    pub payload: Option<serde_json::Value>,
}

impl View for WebhookAction {
    type V = WebhookActionView;

    open spec fn view(&self) -> WebhookActionView {
        WebhookActionView { url: self.url@, headers: self.headers@, payload: self.payload }
    }
}

impl Clone for WebhookAction {
    fn clone(&self) -> (r: Self)
        ensures
            r@ == self@,
    {
        WebhookAction {
            url: self.url.clone(),
            headers: self.headers.clone(),
            payload: self.payload.clone(),
        }
    }
}

/// Maximum bytes read from a webhook response body (64 KiB).
///
/// Webhook targets are expected to return only a short acknowledgement;
/// reading an unbounded body is a denial-of-service surface.
pub const RESPONSE_BODY_LIMIT_BYTES: usize = 64 * 1024;

/// A successful (2xx) webhook response.
#[derive(Debug)]
pub struct WebhookResult {
    pub status: u16,
    pub body: String,
    /// `true` when the response body exceeded the size limit and was
    /// truncated to fit. The captured prefix is in `body`.
    pub body_truncated: bool,
}

/// Why a webhook did not succeed.
#[derive(Debug)]
pub enum WebhookError {
    InvalidHeaderName(String),
    InvalidHeaderValue(String),
    Transport(reqwest::Error),
    /// The target did not answer within the client's timeout.
    Timeout,
    NonSuccessStatus { status: u16, body: String },
    /// The non-2xx response body exceeded the size limit. `captured_bytes`
    /// is how many bytes were buffered before the stream was dropped.
    ResponseTooLarge { status: u16, captured_bytes: usize },
}

/// `c` is an HTTP token character: an ASCII letter or digit, or one of
/// ``!#$%&'*+-.^_`|~``.
pub open spec fn is_token_char(c: char) -> bool {
    let n: int = c as int;
    ||| 'a' as int <= n <= 'z' as int
    ||| 'A' as int <= n <= 'Z' as int
    ||| '0' as int <= n <= '9' as int
    ||| c == '!' || c == '#' || c == '$' || c == '%' || c == '&' || c == '\''
    ||| c == '*' || c == '+' || c == '-' || c == '.' || c == '^' || c == '_'
    ||| c == '`' || c == '|' || c == '~'
}

/// The longest header name `http` accepts, in bytes.
pub const MAX_HEADER_NAME_LEN: usize = 65535;

/// `http::HeaderName::from_bytes` accepts `name`: it has 1 to 65535
/// characters and each is a token character. Token characters are ASCII, so
/// characters and bytes are counted alike.
pub open spec fn header_name_accepted(name: Seq<char>) -> bool {
    &&& 1 <= name.len() <= MAX_HEADER_NAME_LEN
    &&& forall|i: int| 0 <= i < name.len() ==> is_token_char(#[trigger] name[i])
}

/// `http::HeaderValue::from_str` accepts `value`: every byte of its UTF-8
/// encoding is a tab or at least 32 and not 127. Bytes of characters beyond
/// ASCII are all at least 128, so this is a condition on the characters.
pub open spec fn header_value_accepted(value: Seq<char>) -> bool {
    forall|i: int| 0 <= i < value.len() ==> value[i] == '\t' || (value[i] as int >= 32 && value[i] as int != 127)
}

/// Calls `http::HeaderName::from_bytes` (re-exported by reqwest) on the bytes
/// of `name`. Claims what its source checks: the length is 1 to 65535 bytes
/// and every byte maps to a token character in its `HEADER_CHARS` table
/// (every byte of 128 or more maps to none).
#[verifier::external_body]
fn header_name_valid(name: &str) -> (b: bool)
    ensures
        b == header_name_accepted(name@),
{
    reqwest::header::HeaderName::from_bytes(name.as_bytes()).is_ok()
}

/// Calls `http::HeaderValue::from_str` (re-exported by reqwest). Claims what
/// its source checks: each byte is a tab, or at least 32 and not 127.
#[verifier::external_body]
fn header_value_valid(value: &str) -> (b: bool)
    ensures
        b == header_value_accepted(value@),
{
    reqwest::header::HeaderValue::from_str(value).is_ok()
}

/// The header `(name, value)` can be put on a request.
pub open spec fn header_accepted(name: Seq<char>, value: Seq<char>) -> bool {
    header_name_accepted(name) && header_value_accepted(value)
}

/// Check the headers of a webhook, in the order given, as the request
/// builder takes them: the first header whose name is refused gives
/// `InvalidHeaderName`, the first whose value is refused `InvalidHeaderValue`,
/// both carrying the header's name.
pub fn check_headers(headers: &[(String, String)]) -> (res: Result<(), WebhookError>)
    ensures
        res is Ok <==> forall|i: int| 0 <= i < headers@.len() ==> header_accepted(#[trigger] headers@[i].0@, headers@[i].1@),
        res is Err ==> exists|i: int| {
            &&& 0 <= i < headers@.len()
            &&& forall|j: int| 0 <= j < i ==> header_accepted(#[trigger] headers@[j].0@, headers@[j].1@)
            &&& !header_accepted(headers@[i].0@, headers@[i].1@)
            &&& if header_name_accepted(headers@[i].0@) {
                res matches Err(WebhookError::InvalidHeaderValue(n)) && n@ == headers@[i].0@
            } else {
                res matches Err(WebhookError::InvalidHeaderName(n)) && n@ == headers@[i].0@
            }
        },
{
    let mut i: usize = 0;
    while i < headers.len()
        invariant
            i <= headers@.len(),
            forall|j: int| 0 <= j < i ==> header_accepted(#[trigger] headers@[j].0@, headers@[j].1@),
        decreases headers@.len() - i,
    {
        let (name, value) = &headers[i];
        if !header_name_valid(name.as_str()) {
            return Err(WebhookError::InvalidHeaderName(name.clone()));
        }
        if !header_value_valid(value.as_str()) {
            return Err(WebhookError::InvalidHeaderValue(name.clone()));
        }
        i = i + 1;
    }
    Ok(())
}

/// The timeout of the HTTP client that delivers webhooks, in seconds
/// (connection and read combined).
pub const WEBHOOK_TIMEOUT_SECS: u64 = 30;

/// What `reqwest::Error::is_timeout` answers on `e`: whether the error, or
/// an error in its chain of sources, is a timeout.
pub uninterp spec fn reqwest_timed_out(e: reqwest::Error) -> bool;

/// Calls `reqwest::Error::is_timeout`. Claims that the answer depends on the
/// error alone (the method walks the error's chain of sources).
#[verifier::external_body]
fn error_is_timeout(e: &reqwest::Error) -> (b: bool)
    ensures
        b == reqwest_timed_out(*e),
{
    e.is_timeout()
}

/// The webhook error for a failed HTTP exchange: `Timeout` when the exchange
/// timed out, `Transport` carrying the error otherwise.
pub fn transport_error(e: reqwest::Error, timed_out: bool) -> (res: WebhookError)
    ensures
        timed_out ==> res is Timeout,
        !timed_out ==> res == WebhookError::Transport(e),
{
    if timed_out {
        WebhookError::Timeout
    } else {
        WebhookError::Transport(e)
    }
}

/// The webhook error for a failed HTTP exchange, as reqwest reports whether
/// it timed out: `Timeout`, or `Transport` carrying the error.
pub fn transport_failure(e: reqwest::Error) -> (res: WebhookError)
    ensures
        reqwest_timed_out(e) ==> res is Timeout,
        !reqwest_timed_out(e) ==> res == WebhookError::Transport(e),
{
    let timed_out = error_is_timeout(&e);
    transport_error(e, timed_out)
}

/// The room left for body bytes: `limit - captured`, or 0 when nothing is
/// left.
pub open spec fn room(captured: nat, limit: usize) -> nat {
    if captured <= limit {
        (limit - captured) as nat
    } else {
        0
    }
}

/// Buffer as much of `chunk` as fits within `limit` bytes in all. Returns
/// `true` when the chunk did not fit whole; `buf` then holds only the part
/// that fitted.
pub fn capture_chunk(buf: &mut Vec<u8>, chunk: &[u8], limit: usize) -> (truncated: bool)
    ensures
        truncated == (chunk@.len() > room(old(buf)@.len(), limit)),
        truncated ==> final(buf)@ == old(buf)@ + chunk@.take(room(old(buf)@.len(), limit) as int),
        !truncated ==> final(buf)@ == old(buf)@ + chunk@,
        old(buf)@.len() <= limit ==> final(buf)@.len() <= limit,
{
    let space: usize = limit.saturating_sub(buf.len());
    let truncated = chunk.len() > space;
    let take: usize = if truncated { space } else { chunk.len() };
    let ghost start = buf@;
    let mut k: usize = 0;
    while k < take
        invariant
            take <= chunk@.len(),
            k <= take,
            buf@ == start + chunk@.take(k as int),
        decreases take - k,
    {
        buf.push(chunk[k]);
        k = k + 1;
        assert(buf@ =~= start + chunk@.take(k as int));
    }
    assert(chunk@.take(chunk@.len() as int) =~= chunk@);
    truncated
}

/// Capturing a chunk into a buffer that holds all bytes received so far
/// (within the limit) keeps the buffer equal to the first `limit` bytes of the
/// stream, and reports truncation exactly when the stream has grown past the
/// limit. So a body read chunk by chunk until truncation holds at most `limit`
/// bytes, and those are the stream's first bytes.
pub proof fn lemma_capture_keeps_stream_prefix(received: Seq<u8>, chunk: Seq<u8>, limit: usize)
    requires
        received.len() <= limit,
    ensures
        chunk.len() > room(received.len(), limit) <==> (received + chunk).len() > limit,
        chunk.len() > room(received.len(), limit) ==> received + chunk.take(
            room(received.len(), limit) as int,
        ) == (received + chunk).take(limit as int),
{
    let r: int = room(received.len(), limit) as int;
    if chunk.len() > r {
        assert(received + chunk.take(r) =~= (received + chunk).take(limit as int));
    }
}

/// What `String::from_utf8_lossy` gives on `bytes`: the decoded text, with
/// U+FFFD in place of each invalid sequence.
pub uninterp spec fn utf8_lossy_text(bytes: Seq<u8>) -> Seq<char>;

/// Calls `String::from_utf8_lossy`. Claims that the text depends on the bytes
/// alone, and, as its documentation says, that valid UTF-8 is decoded as is.
#[verifier::external_body]
fn lossy_text(bytes: &[u8]) -> (s: String)
    ensures
        s@ == utf8_lossy_text(bytes@),
        valid_utf8(bytes@) ==> s@ == decode_utf8(bytes@),
{
    String::from_utf8_lossy(bytes).into_owned()
}

/// The status is a success (2xx).
pub open spec fn is_success(status: u16) -> bool {
    200 <= status < 300
}

/// Every status from 200 through 299 is a success, and no other is.
pub proof fn lemma_success_is_every_2xx(status: u16)
    ensures
        is_success(status) <==> 200 <= status <= 299,
        200 <= status <= 299 ==> is_success(status),
{
}

/// The outcome of a webhook whose response had `status` and whose body was
/// captured as `body` (`truncated` when it was cut at the size limit).
///
/// - On **2xx** the captured body is returned in [`WebhookResult`], with
///   `body_truncated` set when it was cut.
/// - On **non-2xx** with a body within the cap, it is
///   [`WebhookError::NonSuccessStatus`].
/// - On **non-2xx** with a body that exceeded the cap, it is
///   [`WebhookError::ResponseTooLarge`], so no caller is handed a large
///   error payload.
pub fn response_outcome(status: u16, body: &[u8], truncated: bool) -> (res: Result<
    WebhookResult,
    WebhookError,
>)
    ensures
        200 <= status <= 299 ==> (res matches Ok(r) && r.status == status && r.body_truncated == truncated),
        !(200 <= status <= 299) ==> res is Err,
        is_success(status) ==> (res matches Ok(r) && r.status == status && r.body@ == utf8_lossy_text(
            body@,
        ) && (valid_utf8(body@) ==> r.body@ == decode_utf8(body@)) && r.body_truncated == truncated),
        !is_success(status) && truncated ==> (res matches Err(
            WebhookError::ResponseTooLarge { status: s, captured_bytes: c },
        ) && s == status && c == body@.len()),
        !is_success(status) && !truncated ==> (res matches Err(
            WebhookError::NonSuccessStatus { status: s, body: b },
        ) && s == status && b@ == utf8_lossy_text(body@) && (valid_utf8(body@) ==> b@ == decode_utf8(
            body@,
        ))),
{
    if 200 <= status && status < 300 {
        Ok(WebhookResult { status, body: lossy_text(body), body_truncated: truncated })
    } else if truncated {
        Err(WebhookError::ResponseTooLarge { status, captured_bytes: body.len() })
    } else {
        Err(WebhookError::NonSuccessStatus { status, body: lossy_text(body) })
    }
}

/// What `<reqwest::Error as Display>::fmt` writes for `e`.
pub uninterp spec fn reqwest_error_text(e: reqwest::Error) -> Seq<char>;

/// Calls `<reqwest::Error as Display>::fmt` through `to_string`. Claims that
/// the text depends on the error alone (its kind, URL and source).
#[verifier::external_body]
fn transport_error_text(e: &reqwest::Error) -> (s: String)
    ensures
        s@ == reqwest_error_text(*e),
{
    e.to_string()
}

/// The message a webhook error displays.
pub open spec fn webhook_error_message(e: WebhookError) -> Seq<char> {
    match e {
        WebhookError::InvalidHeaderName(n) => "invalid header name: "@ + n@,
        WebhookError::InvalidHeaderValue(n) => "invalid header value for "@ + n@,
        WebhookError::Transport(e) => "webhook transport error: "@ + reqwest_error_text(e),
        WebhookError::Timeout => "webhook timed out"@,
        WebhookError::NonSuccessStatus { status, body } => "webhook returned non-success status "@
            + decimal(status as nat) + ": "@ + body@,
        WebhookError::ResponseTooLarge { status, captured_bytes } =>
            "webhook response body exceeded limit ("@ + decimal(captured_bytes as nat)
            + " bytes captured, status "@ + decimal(status as nat) + ")"@,
    }
}

impl WebhookError {
    /// The text this error displays.
    pub fn message(&self) -> (s: String)
        ensures
            s@ == webhook_error_message(*self),
    {
        match self {
            WebhookError::InvalidHeaderName(n) => {
                let mut s = String::from_str("invalid header name: ");
                s.append(n.as_str());
                s
            },
            WebhookError::InvalidHeaderValue(n) => {
                let mut s = String::from_str("invalid header value for ");
                s.append(n.as_str());
                s
            },
            WebhookError::Transport(e) => {
                let mut s = String::from_str("webhook transport error: ");
                let t = transport_error_text(e);
                s.append(t.as_str());
                s
            },
            WebhookError::Timeout => String::from_str("webhook timed out"),
            WebhookError::NonSuccessStatus { status, body } => {
                let mut s = String::from_str("webhook returned non-success status ");
                s.append(decimal_string(*status as usize).as_str());
                s.append(": ");
                s.append(body.as_str());
                s
            },
            WebhookError::ResponseTooLarge { status, captured_bytes } => {
                let mut s = String::from_str("webhook response body exceeded limit (");
                s.append(decimal_string(*captured_bytes).as_str());
                s.append(" bytes captured, status ");
                s.append(decimal_string(*status as usize).as_str());
                s.append(")");
                s
            },
        }
    }
}

} // verus!
