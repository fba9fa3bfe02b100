//! What one fetch came back with, and the outcome recorded for its URL.
//!
//! A response is classified into exactly one outcome, by the first rule that
//! applies: a transport failure; a success status with a content type other
//! than HTML; a success status with HTML; any other status.

use crate::snippet::{snippet, snippet_of};
use crate::text::{bytes_view, decimal_text, push_decimal, text_view};
use vstd::prelude::*;

verus! {

/// The outcome recorded for one URL of a batch.
#[derive(Debug)]
pub struct FetchOutcome {
    /// The URL as it was given.
    pub url: String,
    /// True when the response had a success status and was HTML.
    pub success: bool,
    /// A preview of the page; present exactly when `success` holds.
    pub snippet: Option<String>,
    /// Why the fetch does not count; present exactly when `success` fails.
    pub error: Option<String>,
}

/// The mathematical value of a `FetchOutcome`.
pub struct OutcomeView {
    pub url: Seq<char>,
    pub success: bool,
    pub snippet: Option<Seq<char>>,
    pub error: Option<Seq<char>>,
}

/// What the transport handed back for one GET.
#[derive(Debug)]
pub enum FetchResponse {
    /// No response arrived; `message` renders the transport's error. Where
    /// it is empty, the outcome carries a fixed text in its place.
    TransportFailure { message: String },
    /// A response arrived. `content_type` holds the bytes of its
    /// `Content-Type` header, if it has one. `body` holds the body as text
    /// where it was read and could be decoded.
    Replied { status: u16, content_type: Option<Vec<u8>>, body: Option<String> },
}

/// The mathematical value of a `FetchResponse`.
pub enum ResponseView {
    TransportFailure { message: Seq<char> },
    Replied { status: u16, content_type: Option<Seq<u8>>, body: Option<Seq<char>> },
}

impl View for FetchOutcome {
    type V = OutcomeView;

    open spec fn view(&self) -> OutcomeView {
        OutcomeView {
            url: self.url@,
            success: self.success,
            snippet: text_view(self.snippet),
            error: text_view(self.error),
        }
    }
}

impl View for FetchResponse {
    type V = ResponseView;

    open spec fn view(&self) -> ResponseView {
        match *self {
            FetchResponse::TransportFailure { message } => ResponseView::TransportFailure {
                message: message@,
            },
            FetchResponse::Replied { status, content_type, body } => ResponseView::Replied {
                status,
                content_type: bytes_view(content_type),
                body: text_view(body),
            },
        }
    }
}

impl OutcomeView {
    /// The shape every recorded outcome has: a snippet and no error when it
    /// succeeded; an error that says something, and no snippet, when it did
    /// not.
    pub open spec fn well_formed(self) -> bool {
        if self.success {
            self.snippet is Some && self.error is None
        } else {
            self.snippet is None && self.error is Some && self.error->0.len() > 0
        }
    }
}

/// True for the status codes that count as success: 200 to 299.
pub open spec fn is_success_status(status: u16) -> bool {
    200 <= status < 300
}

/// True for the bytes that may stand in a header value read as text: the
/// printable ASCII characters, the space and the tab.
pub open spec fn is_visible_ascii(b: u8) -> bool {
    (32 <= b < 127) || b == 9
}

/// The bytes of `text/html`.
pub open spec fn html_media_type() -> Seq<u8> {
    seq![0x74u8, 0x65u8, 0x78u8, 0x74u8, 0x2fu8, 0x68u8, 0x74u8, 0x6du8, 0x6cu8]
}

/// True when a header value says HTML: it is readable as text and starts
/// with `text/html`.
pub open spec fn is_html_value(value: Seq<u8>) -> bool {
    &&& forall|i: int| 0 <= i < value.len() ==> is_visible_ascii(#[trigger] value[i])
    &&& html_media_type().is_prefix_of(value)
}

/// True when a response says HTML: it has a `Content-Type` header, and its
/// value says so.
pub open spec fn is_html_content_type(content_type: Option<Seq<u8>>) -> bool {
    match content_type {
        None => false,
        Some(value) => is_html_value(value),
    }
}

/// The error text of a transport failure that came without a message.
pub open spec fn unnamed_failure_text() -> Seq<char> {
    "Transport error"@
}

/// The error text of a transport failure: its message, or a fixed text where
/// the message is empty, so that the text never is.
pub open spec fn transport_error_text(message: Seq<char>) -> Seq<char> {
    if message.len() == 0 {
        unnamed_failure_text()
    } else {
        message
    }
}

/// The error text of a success response that is not HTML.
pub open spec fn non_html_text() -> Seq<char> {
    "Skipped non-HTML content"@
}

/// The error text of a response with the status `status`: `HTTP`, a space,
/// and the code in decimal.
pub open spec fn status_error_text(status: u16) -> Seq<char> {
    "HTTP "@ + decimal_text(status as nat)
}

/// The text of a body: what was read, or nothing where none could be.
pub open spec fn body_text(body: Option<Seq<char>>) -> Seq<char> {
    match body {
        Some(text) => text,
        None => Seq::empty(),
    }
}

/// The outcome of a fetch that does not count, with its reason.
pub open spec fn failed(url: Seq<char>, reason: Seq<char>) -> OutcomeView {
    OutcomeView { url, success: false, snippet: None, error: Some(reason) }
}

/// The outcome of a fetch that counts, with the preview of its page.
pub open spec fn succeeded(url: Seq<char>, preview: Seq<char>) -> OutcomeView {
    OutcomeView { url, success: true, snippet: Some(preview), error: None }
}

/// The outcome recorded for `url` when its fetch came back with `response`.
pub open spec fn outcome_of(url: Seq<char>, response: ResponseView) -> OutcomeView {
    match response {
        ResponseView::TransportFailure { message } => failed(
            url,
            transport_error_text(message),
        ),
        ResponseView::Replied { status, content_type, body } => {
            if is_success_status(status) {
                if is_html_content_type(content_type) {
                    succeeded(url, snippet_of(body_text(body)))
                } else {
                    failed(url, non_html_text())
                }
            } else {
                failed(url, status_error_text(status))
            }
        },
    }
}

/// True when the body of a response with this status and content type goes
/// into its outcome, so that it has to be read.
pub open spec fn body_is_read(status: u16, content_type: Option<Seq<u8>>) -> bool {
    is_success_status(status) && is_html_content_type(content_type)
}

/// Every outcome has exactly one of snippet and error, and `success` alone
/// tells which: the snippet where it holds, the error where it does not. The
/// outcome names the URL as it was given.
pub proof fn law_outcome_has_snippet_or_error(url: Seq<char>, response: ResponseView)
    ensures
        outcome_of(url, response).well_formed(),
        outcome_of(url, response).success <==> outcome_of(url, response).snippet is Some,
        outcome_of(url, response).success <==> outcome_of(url, response).error is None,
        outcome_of(url, response).url == url,
{
    law_failure_has_a_reason(url, response);
}

/// A fetch counts exactly when a response arrived with a success status and
/// an HTML content type.
pub proof fn law_success_needs_html(url: Seq<char>, response: ResponseView)
    ensures
        outcome_of(url, response).success <==> (response matches ResponseView::Replied {
            status,
            content_type,
            ..
        } && is_success_status(status) && is_html_content_type(content_type)),
{
}

/// Content-type gating: a response with a success status whose content type
/// does not say HTML, or that has none, is skipped, whatever its body.
pub proof fn law_non_html_success_is_skipped(
    url: Seq<char>,
    status: u16,
    content_type: Option<Seq<u8>>,
    body: Option<Seq<char>>,
)
    requires
        is_success_status(status),
        !is_html_content_type(content_type),
    ensures
        outcome_of(url, ResponseView::Replied { status, content_type, body }) == failed(
            url,
            non_html_text(),
        ),
{
}

/// Status gating: a response with any other status than success is reported
/// with its code, whatever its content type and body.
pub proof fn law_other_status_is_reported(
    url: Seq<char>,
    status: u16,
    content_type: Option<Seq<u8>>,
    body: Option<Seq<char>>,
)
    requires
        !is_success_status(status),
    ensures
        outcome_of(url, ResponseView::Replied { status, content_type, body }) == failed(
            url,
            "HTTP "@ + decimal_text(status as nat),
        ),
{
}

/// A transport failure is recorded as a failure of its URL, with an error
/// text that is not empty: the message of the transport, where it has one.
pub proof fn law_transport_failure_is_recorded(url: Seq<char>, message: Seq<char>)
    ensures
        outcome_of(url, ResponseView::TransportFailure { message }) == failed(
            url,
            transport_error_text(message),
        ),
        transport_error_text(message).len() > 0,
        message.len() > 0 ==> outcome_of(url, ResponseView::TransportFailure { message })
            == failed(url, message),
{
    reveal_strlit("Transport error");
}

/// Whatever a fetch came back with, an outcome that does not count says
/// why: its error text is not empty.
pub proof fn law_failure_has_a_reason(url: Seq<char>, response: ResponseView)
    ensures
        outcome_of(url, response).error matches Some(reason) ==> reason.len() > 0,
{
    reveal_strlit("Transport error");
    reveal_strlit("Skipped non-HTML content");
    reveal_strlit("HTTP ");
}

/// Tells whether a status code counts as success.
pub fn status_is_success(status: u16) -> (yes: bool)
    ensures
        yes == is_success_status(status),
{
    200 <= status && status < 300
}

/// Tells whether a header value says HTML.
pub fn value_is_html(value: &Vec<u8>) -> (yes: bool)
    ensures
        yes == is_html_value(value@),
{
    let mut i: usize = 0;
    while i < value.len()
        invariant
            i <= value.len(),
            forall|k: int| 0 <= k < i ==> is_visible_ascii(#[trigger] value@[k]),
        decreases value.len() - i,
    {
        let b = value[i];
        if !((32 <= b && b < 127) || b == 9) {
            assert(!is_visible_ascii(value@[i as int]));
            return false;
        }
        i += 1;
    }
    if value.len() < 9 {
        return false;
    }
    let yes = value[0] == 0x74 && value[1] == 0x65 && value[2] == 0x78 && value[3] == 0x74
        && value[4] == 0x2f && value[5] == 0x68 && value[6] == 0x74 && value[7] == 0x6d
        && value[8] == 0x6c;
    proof {
        let m = html_media_type();
        if yes {
            assert(value@.subrange(0, 9) =~= m);
        } else if m.is_prefix_of(value@) {
            assert(forall|k: int| 0 <= k < 9 ==> value@[k] == value@.subrange(0, 9)[k]);
        }
    }
    yes
}

/// Tells whether the `Content-Type` header of a response says HTML.
pub fn content_type_is_html(content_type: &Option<Vec<u8>>) -> (yes: bool)
    ensures
        yes == is_html_content_type(bytes_view(*content_type)),
{
    match content_type {
        None => false,
        Some(value) => value_is_html(value),
    }
}

/// Tells whether the body of a response has to be read for its outcome.
pub fn wants_body(status: u16, content_type: &Option<Vec<u8>>) -> (yes: bool)
    ensures
        yes == body_is_read(status, bytes_view(*content_type)),
{
    status_is_success(status) && content_type_is_html(content_type)
}

/// Records the outcome for `url` from what its fetch came back with.
pub fn classify(url: String, response: FetchResponse) -> (outcome: FetchOutcome)
    ensures
        outcome@ == outcome_of(url@, response@),
        outcome@.well_formed(),
        outcome@.url == url@,
{
    proof {
        law_failure_has_a_reason(url@, response@);
    }
    match response {
        FetchResponse::TransportFailure { message } => {
            let reason = if message.as_str().is_empty() {
                "Transport error".to_owned()
            } else {
                message
            };
            FetchOutcome { url, success: false, snippet: None, error: Some(reason) }
        },
        FetchResponse::Replied { status, content_type, body } => {
            if status_is_success(status) {
                if content_type_is_html(&content_type) {
                    let preview = match &body {
                        Some(text) => snippet(text.as_str()),
                        None => snippet(""),
                    };
                    proof {
                        reveal_strlit("");
                        assert(""@ =~= Seq::<char>::empty());
                    }
                    FetchOutcome { url, success: true, snippet: Some(preview), error: None }
                } else {
                    FetchOutcome {
                        url,
                        success: false,
                        snippet: None,
                        error: Some("Skipped non-HTML content".to_owned()),
                    }
                }
            } else {
                let mut reason = "HTTP ".to_owned();
                push_decimal(&mut reason, status);
                FetchOutcome { url, success: false, snippet: None, error: Some(reason) }
            }
        },
    }
}

} // verus!
