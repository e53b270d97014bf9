//! HTTP exchanges as values: the call to make, and the reply that came back.

use crate::auth::text_from_utf8;
use crate::backends::cli::subprocess::{text_lossy, utf8_lossy};
use crate::http_base::header_views;
use crate::json::{parse_json, serde_parse, Json, JsonView};
use crate::types::{json_result, text_result, ErrorView, ProviderError};
use vstd::prelude::*;
use vstd::string::*;
use vstd::utf8::{decode_utf8, valid_utf8};

verus! {

/// The method of a call.
#[derive(Debug, Clone, Copy, PartialEq, Eq, Structural)]
pub enum HttpMethod {
    Get,
    Post,
}

/// What a call carries.
#[derive(Debug, PartialEq)]
pub enum CallBody {
    /// Nothing.
    Empty,
    /// A JSON value.
    Value(Json),
    /// A form with the purpose `batch` and a file of these lines, called
    /// `batch.jsonl`.
    BatchFile(String),
}

/// A call to make.
#[derive(Debug, PartialEq)]
pub struct HttpCall {
    pub method: HttpMethod,
    pub url: String,
    pub headers: Vec<(String, String)>,
    pub body: CallBody,
}

/// What a body says.
pub enum BodyView {
    Empty,
    Value(JsonView),
    BatchFile(Seq<char>),
}

impl View for CallBody {
    type V = BodyView;

    open spec fn view(&self) -> BodyView {
        match self {
            CallBody::Empty => BodyView::Empty,
            CallBody::Value(j) => BodyView::Value(j@),
            CallBody::BatchFile(s) => BodyView::BatchFile(s@),
        }
    }
}

/// What a call says.
pub struct CallView {
    pub method: HttpMethod,
    pub url: Seq<char>,
    pub headers: Seq<(Seq<char>, Seq<char>)>,
    pub body: BodyView,
}

impl View for HttpCall {
    type V = CallView;

    open spec fn view(&self) -> CallView {
        CallView {
            method: self.method,
            url: self.url@,
            headers: header_views(self.headers@),
            body: self.body@,
        }
    }
}

/// What a call that may not come about says.
pub open spec fn call_result(r: Result<HttpCall, ProviderError>) -> Result<CallView, ErrorView> {
    match r {
        Ok(c) => Ok(c@),
        Err(e) => Err(e@),
    }
}

/// A call with these headers to this URL, unless there are none or it is no URL.
pub open spec fn call_with(
    method: HttpMethod,
    headers: Result<Seq<(Seq<char>, Seq<char>)>, ErrorView>,
    url: Result<Seq<char>, ErrorView>,
    body: BodyView,
) -> Result<CallView, ErrorView> {
    match headers {
        Err(e) => Err(e),
        Ok(h) => match url {
            Err(e) => Err(e),
            Ok(u) => Ok(CallView { method, url: u, headers: h, body }),
        },
    }
}

/// Puts a call together.
pub fn make_call(
    method: HttpMethod,
    headers: Result<Vec<(String, String)>, ProviderError>,
    url: Result<String, ProviderError>,
    body: CallBody,
) -> (r: Result<HttpCall, ProviderError>)
    ensures
        call_result(r) == call_with(
            method,
            crate::http_base::headers_result(headers),
            text_result(url),
            body@,
        ),
{
    match headers {
        Err(e) => Err(e),
        Ok(h) => match url {
            Err(e) => Err(e),
            Ok(u) => Ok(HttpCall { method, url: u, headers: h, body }),
        },
    }
}

/// Why the body of a reply could not be read: in words, and as the error of a call
/// that needs it.
#[derive(Debug, PartialEq)]
pub struct BodyFailure {
    pub text: String,
    pub error: ProviderError,
}

/// The body of a reply.
#[derive(Debug, PartialEq)]
pub enum ReplyBody {
    /// As text, decoded by the character set that the reply names.
    Text(String),
    /// As it came.
    Bytes(Vec<u8>),
}

impl ReplyBody {
    /// The body as text. What is not UTF-8 in bytes is replaced.
    pub open spec fn text(self) -> Seq<char> {
        match self {
            ReplyBody::Text(t) => t@,
            ReplyBody::Bytes(b) => utf8_lossy(b@),
        }
    }

    /// The JSON value in the body, if it holds one. Bytes that are not UTF-8 hold none,
    /// and nothing is taken off the front of the others.
    pub open spec fn value(self) -> Option<JsonView> {
        match self {
            ReplyBody::Text(t) => serde_parse(t@).ok(),
            ReplyBody::Bytes(b) => if valid_utf8(b@) {
                serde_parse(decode_utf8(b@)).ok()
            } else {
                None
            },
        }
    }

    /// The body as text.
    pub fn to_text(&self) -> (r: String)
        ensures
            r@ == self.text(),
    {
        match self {
            ReplyBody::Text(t) => t.as_str().to_owned(),
            ReplyBody::Bytes(b) => text_lossy(b),
        }
    }

    /// Reads the JSON value in the body.
    pub fn read_value(&self) -> (r: Option<Json>)
        ensures
            match r {
                Some(v) => self.value() == Some(v@),
                None => self.value() is None,
            },
    {
        match self {
            ReplyBody::Text(t) => match parse_json(t.as_str()) {
                Ok(v) => Some(v),
                Err(_) => None,
            },
            ReplyBody::Bytes(b) => {
                let copy: Vec<u8> = b.clone();
                assert(copy@ =~= b@);
                match text_from_utf8(copy) {
                    Err(_) => None,
                    Ok(t) => match parse_json(t.as_str()) {
                        Ok(v) => Some(v),
                        Err(_) => None,
                    },
                }
            },
        }
    }
}

/// A reply: its status, its headers with their names in lower case, and its body.
#[derive(Debug, PartialEq)]
pub struct HttpReply {
    pub status: u16,
    pub headers: Vec<(String, String)>,
    pub body: Result<ReplyBody, BodyFailure>,
}

impl HttpReply {
    /// Whether the status is one that HTTP has.
    pub open spec fn valid(self) -> bool {
        100 <= self.status <= 999
    }

    /// Whether the server did what it was asked for.
    pub open spec fn succeeded(self) -> bool {
        200 <= self.status < 300
    }

    /// The body, which is empty where it could not be read.
    pub open spec fn text(self) -> Seq<char> {
        match self.body {
            Ok(b) => b.text(),
            Err(_) => ""@,
        }
    }

    /// The body as a JSON value. `what` names the exchange.
    pub open spec fn json(self, what: Seq<char>) -> Result<JsonView, ErrorView> {
        match self.body {
            Err(e) => Err(ErrorView::Parse(what + ": response not JSON: "@ + e.text@)),
            Ok(b) => match b.value() {
                Some(v) => Ok(v),
                None => Err(
                    ErrorView::Parse(what + ": response not JSON: error decoding response body"@),
                ),
            },
        }
    }

    /// Whether the server did what it was asked for.
    pub fn is_success(&self) -> (r: bool)
        ensures
            r == self.succeeded(),
    {
        200 <= self.status && self.status < 300
    }

    /// The body, which is empty where it could not be read.
    pub fn text_or_empty(&self) -> (r: String)
        ensures
            r@ == self.text(),
    {
        match &self.body {
            Ok(b) => b.to_text(),
            Err(_) => "".to_owned(),
        }
    }

    /// Reads the body as a JSON value.
    pub fn read_json(&self, what: &str) -> (r: Result<Json, ProviderError>)
        ensures
            json_result(r) == self.json(what@),
    {
        match &self.body {
            Err(e) => {
                let mut msg: String = what.to_owned();
                msg.append(": response not JSON: ");
                msg.append(e.text.as_str());
                Err(ProviderError::Parse(msg))
            },
            Ok(b) => match b.read_value() {
                Some(v) => Ok(v),
                None => {
                    let mut msg: String = what.to_owned();
                    msg.append(": response not JSON: error decoding response body");
                    Err(ProviderError::Parse(msg))
                },
            },
        }
    }
}

/// A slash, a text, and what follows on it.
pub fn suffix_of(id: &str, rest: &str) -> (r: String)
    ensures
        r@ == "/"@ + id@ + rest@,
{
    let mut out: String = "/".to_owned();
    out.append(id);
    out.append(rest);
    out
}

} // verus!
