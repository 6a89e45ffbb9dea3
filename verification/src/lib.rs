//! Request files: plain-text scripts of HTTP requests, with placeholders
//! that a script engine resolves and handlers that run on the responses.
//!
//! - [`parser`] reads a request file into the document of [`model`].
//! - [`select`] chooses the request scripts of a file that are to run.
//! - [`script_engine`] says what a script engine is, resolves placeholders
//!   with it, hands responses to handlers, and holds the engine that makes
//!   its scopes on an interpreter.
//! - [`process`] resolves whole requests.
//! - [`client`] says what a client is, and keeps the record of what it sends.
//! - [`runtime`] takes a run through its steps: resolve, send, handle, reset.
//! - [`output`] writes requests and responses as text.
//! - [`controller`] names what can end a run, and how the user is told.
//!
//! The library reads no file and sends no request. It is handed texts, and
//! hands back requests to send and texts to print.

pub mod client;
pub mod controller;
pub mod model;
pub mod output;
pub mod parser;
pub mod process;
pub mod runtime;
pub mod script_engine;
pub mod select;
pub mod text;

use crate::model::{ProcessedView, Unprocessed};
use crate::process::{batch_of, processed_request, request_scripts, Processable};
use crate::script_engine::json::pair_views;
use crate::script_engine::{added, evaluated, Error, Scope};
use vstd::prelude::*;

verus! {

/// How the client that sends the requests is to behave.
#[derive(Debug, PartialEq, Eq, Clone, Copy)]
pub struct ClientConfig {
    /// Whether the certificate of a server is checked.
    pub ssl_check: bool,
}

impl ClientConfig {
    pub fn new(ssl_check: bool) -> (config: ClientConfig)
        ensures
            config.ssl_check == ssl_check,
    {
        ClientConfig { ssl_check }
    }
}

impl Default for ClientConfig {
    /// Certificates are checked unless it is asked otherwise.
    fn default() -> (config: ClientConfig)
        ensures
            config.ssl_check,
    {
        ClientConfig { ssl_check: true }
    }
}

/// The request method, as it is sent.
#[derive(Debug, PartialEq, Eq, Clone, Copy)]
pub enum Method {
    Get,
    Post,
    Delete,
    Put,
    Patch,
    Options,
}

/// The protocol version of a response.
#[derive(Debug, PartialEq, Eq, Clone, Copy)]
pub enum Version {
    Http09,
    Http2,
    Http10,
    Http11,
}

/// A request with every placeholder resolved, ready to be sent.
#[derive(Debug, PartialEq, Eq)]
pub struct Request {
    pub method: Method,
    pub target: String,
    pub headers: Vec<(String, String)>,
    pub body: Option<String>,
}

pub struct RequestView {
    pub method: Method,
    pub target: Seq<char>,
    pub headers: Seq<(Seq<char>, Seq<char>)>,
    pub body: Option<Seq<char>>,
}

impl View for Request {
    type V = RequestView;

    open spec fn view(&self) -> RequestView {
        RequestView {
            method: self.method,
            target: self.target@,
            headers: pair_views(self.headers@),
            body: match self.body {
                Some(body) => Some(body@),
                None => None,
            },
        }
    }
}

/// A response as it came back.
#[derive(Debug, PartialEq, Eq)]
pub struct Response {
    pub version: Version,
    pub status_code: u16,
    pub status: String,
    pub headers: Vec<(String, String)>,
    pub body: Option<String>,
}

pub struct ResponseView {
    pub version: Version,
    pub status_code: u16,
    pub status: Seq<char>,
    pub headers: Seq<(Seq<char>, Seq<char>)>,
    pub body: Option<Seq<char>>,
}

impl View for Response {
    type V = ResponseView;

    open spec fn view(&self) -> ResponseView {
        ResponseView {
            version: self.version,
            status_code: self.status_code,
            status: self.status@,
            headers: pair_views(self.headers@),
            body: match self.body {
                Some(body) => Some(body@),
                None => None,
            },
        }
    }
}

/// The method that is sent for a method of a request file.
pub open spec fn sent_method(method: crate::model::MethodView) -> Method {
    match method {
        crate::model::MethodView::Get(_) => Method::Get,
        crate::model::MethodView::Post(_) => Method::Post,
        crate::model::MethodView::Delete(_) => Method::Delete,
        crate::model::MethodView::Put(_) => Method::Put,
        crate::model::MethodView::Patch(_) => Method::Patch,
        crate::model::MethodView::Options(_) => Method::Options,
    }
}

/// The pairs of name and value of resolved headers.
pub open spec fn sent_headers(headers: Seq<crate::model::HeaderView<ProcessedView>>) -> Seq<
    (Seq<char>, Seq<char>),
> {
    Seq::new(headers.len(), |i: int| (headers[i].field_name, headers[i].field_value.state.value))
}

/// The request that is sent for a resolved request of a request file: the
/// same method, target, headers and body, without the places in the file.
pub open spec fn sent_request(request: crate::model::RequestView<ProcessedView>) -> RequestView {
    RequestView {
        method: sent_method(request.method),
        target: request.target.state.value,
        headers: sent_headers(request.headers),
        body: match request.body {
            Some(body) => Some(body.state.value),
            None => None,
        },
    }
}

impl Method {
    /// The method that is sent for a method of a request file.
    pub fn of(method: &crate::model::Method) -> (sent: Method)
        ensures
            sent == sent_method(method@),
    {
        match method {
            crate::model::Method::Get(_) => Method::Get,
            crate::model::Method::Post(_) => Method::Post,
            crate::model::Method::Delete(_) => Method::Delete,
            crate::model::Method::Put(_) => Method::Put,
            crate::model::Method::Patch(_) => Method::Patch,
            crate::model::Method::Options(_) => Method::Options,
        }
    }
}

impl Request {
    /// The request that is sent for a resolved request of a request file.
    pub fn of(request: &crate::model::Request<crate::model::Processed>) -> (sent: Request)
        ensures
            sent@ == sent_request(request@),
    {
        let mut headers: Vec<(String, String)> = Vec::new();
        let mut i: usize = 0;
        while i < request.headers.len()
            invariant
                i <= request.headers.len(),
                headers.len() == i,
                forall|k: int|
                    0 <= k < i ==> (#[trigger] headers@[k]).0@ == request.headers@[k].field_name@
                        && headers@[k].1@ == request.headers@[k].field_value.state.value@,
            decreases request.headers.len() - i,
        {
            let header = &request.headers[i];
            headers.push((header.field_name.clone(), header.field_value.state.value.clone()));
            i += 1;
        }
        assert(pair_views(headers@) =~= sent_headers(request@.headers));
        Request {
            method: Method::of(&request.method),
            target: request.target.state.value.clone(),
            headers,
            body: match &request.body {
                Some(body) => Some(body.state.value.clone()),
                None => None,
            },
        }
    }
}

/// Resolves the placeholders of a request and hands out the request to
/// send.
///
/// The scripts of the placeholders are evaluated in the order target,
/// headers, body, up to the first that fails, whose error is the result.
pub fn process<E: Scope>(engine: &mut E, request: &crate::model::Request<Unprocessed>) -> (result:
    Result<Request, Error>)
    ensures
        evaluated(*old(engine), *final(engine), batch_of(request_scripts(request@))),
        match batch_of(request_scripts(request@)).result(
            added(old(engine).trail(), final(engine).trail()),
        ) {
            Ok(values) => result is Ok && result->Ok_0@ == sent_request(
                processed_request(request@, values),
            ),
            Err(error) => result is Err && result->Err_0@ == error,
        },
{
    match request.process(engine) {
        Ok(processed) => Ok(Request::of(&processed)),
        Err(error) => Err(error),
    }
}

} // verus!
