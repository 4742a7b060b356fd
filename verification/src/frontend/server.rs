//! The frontend of a node: which requests it takes and how it answers them.

use vstd::prelude::*;

use crate::text::{joined, same};

verus! {

/// The size in bytes that the body of a request must not exceed.
pub const BODY_LIMIT: u64 = 65536;

/// What a request is about.
#[derive(Clone, Copy, Debug, PartialEq, Eq, Structural)]
pub enum Route {
    /// Reading values.
    Get,
    /// Writing values.
    Put,
    /// Nothing that the frontend knows.
    NotFound,
}

/// What stands in an answer. `T` is a message.
#[derive(Debug)]
pub enum ReplyBody<T> {
    Empty,
    Text(String),
    Message(T),
}

/// An answer: its status code and its body.
#[derive(Debug)]
pub struct Reply<T> {
    pub status: u16,
    pub body: ReplyBody<T>,
}

/// Why the body of a request was not taken.
#[derive(Debug)]
pub enum AcceptBodyError {
    BodyTooLarge,
}

impl<T> Reply<T> {
    /// Whether this is a text with a status code.
    pub open spec fn is_text(self, status: u16, text: Seq<char>) -> bool {
        self.status == status && (self.body matches ReplyBody::Text(body) && body@ == text)
    }
}

/// What a request with the given method and path is about.
pub fn serve_request(method: &str, path: &str) -> (route: Route)
    ensures
        route == if method@ == "POST"@ && path@ == "/get"@ {
            Route::Get
        } else if method@ == "POST"@ && path@ == "/put"@ {
            Route::Put
        } else {
            Route::NotFound
        },
{
    if !same(method, "POST") {
        Route::NotFound
    } else if same(path, "/get") {
        Route::Get
    } else if same(path, "/put") {
        Route::Put
    } else {
        Route::NotFound
    }
}

/// The answer to a request that is about nothing.
pub fn not_found<T>() -> (reply: Reply<T>)
    ensures
        reply.status == 404,
        reply.body is Empty,
{
    Reply { status: 404, body: ReplyBody::Empty }
}

/// Whether a body is taken, given the most bytes that it may turn out to have. One without such a
/// bound counts as too large.
pub fn accept_body(upper: Option<u64>) -> (result: Result<(), AcceptBodyError>)
    ensures
        result is Ok <==> (upper matches Some(upper) && upper <= BODY_LIMIT),
        result is Ok <==> upper is Some && upper->0 < 65537,
{
    match upper {
        Some(upper) if upper <= BODY_LIMIT => Ok(()),
        _ => Err(AcceptBodyError::BodyTooLarge),
    }
}

/// The answer to a request with a body that is too large.
pub fn payload_too_large<T>() -> (reply: Reply<T>)
    ensures
        reply.is_text(413, "Body too big"@),
{
    Reply { status: 413, body: ReplyBody::Text("Body too big".to_owned()) }
}

/// The answer to a request that cannot be decoded, given how the error is shown.
pub fn failed_to_decode<T>(shown: &str) -> (reply: Reply<T>)
    ensures
        reply.is_text(400, "Failed to decode the provided input: "@ + shown@),
{
    Reply {
        status: 400,
        body: ReplyBody::Text(joined("Failed to decode the provided input: ", shown)),
    }
}

/// What is answered to a request that was decoded: the request itself.
pub fn handle<T>(input: T) -> (output: T)
    ensures
        output == input,
{
    input
}

/// The answer to a request, given its message or how the error of decoding it is shown.
pub fn respond<T>(decoded: Result<T, String>) -> (reply: Reply<T>)
    ensures
        match decoded {
            Ok(request) => reply == (Reply { status: 200, body: ReplyBody::Message(request) }),
            Err(shown) => reply.is_text(400, "Failed to decode the provided input: "@ + shown@),
        },
{
    match decoded {
        Ok(request) => Reply { status: 200, body: ReplyBody::Message(handle(request)) },
        Err(shown) => failed_to_decode(shown.as_str()),
    }
}

/// A service that writes down each request before it hands it on.
#[derive(Debug)]
pub struct Logger<S> {
    /// The service that the requests are handed to.
    pub inner: S,
}

impl<S> Logger<S> {
    /// Writes down the requests to a service.
    pub fn new(inner: S) -> (logger: Self)
        ensures
            logger.inner == inner,
    {
        Logger { inner }
    }

    /// What is written down for a request.
    pub fn entry(method: &str, path: &str) -> (entry: String)
        ensures
            entry@ == "processing request: "@ + method@ + " "@ + path@,
    {
        let start = joined("processing request: ", method);
        joined(joined(start.as_str(), " ").as_str(), path)
    }
}

/// A text in an answer has its status code and is no message.
pub proof fn law_texts_have_a_status<T>(reply: Reply<T>, status: u16, text: Seq<char>)
    ensures
        reply.is_text(status, text) <==> reply.status == status && reply.body is Text
            && reply.body->Text_0@ == text,
{
}

} // verus!
