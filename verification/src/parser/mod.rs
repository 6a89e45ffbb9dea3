//! Reading request files.
//!
//! [`parse`] turns the text of a request file into a [`File`]. What it
//! returns is fixed by the grammar in [`grammar`] and by the description of
//! the document in [`document`].

pub mod document;
pub mod grammar;
pub mod laws;
mod locate;
mod scan;

use crate::model::{
    header_views, inline_script_views, request_script_views, File, Handler, Header, InlineScript,
    Method, Position, Request, RequestScript, Selection, SelectionView, Unprocessed,
    UnprocessedView, Value,
};
use crate::parser::document::{
    file_of, handler_of, header_of, headers_of, inline_script_of, inline_scripts_of, method_of,
    position_at, request_of, script_of, scripts_of, selection_of, value_of,
};
use crate::parser::grammar::{Expected, Failure, HeaderSpans, MethodKind, ScriptSpans, Span, ValueKind};
use crate::parser::locate::Locator;
use crate::text::{slice_to_string, to_chars};
use vstd::prelude::*;

verus! {

/// Why a source could not be read, and where.
#[derive(Debug, PartialEq, Eq)]
pub struct Error {
    pub message: String,
    pub selection: Selection,
}

pub struct ErrorView {
    pub message: Seq<char>,
    pub selection: SelectionView,
}

impl View for Error {
    type V = ErrorView;

    open spec fn view(&self) -> ErrorView {
        ErrorView { message: self.message@, selection: self.selection@ }
    }
}

/// The message for a place where the source does not follow the grammar.
pub open spec fn message_of(expected: Expected) -> Seq<char> {
    match expected {
        Expected::Method => "unsupported method: expected GET, POST, PUT, PATCH, DELETE or OPTIONS and a space"@,
        Expected::Target => "expected the target of the request"@,
        Expected::Version => "expected HTTP/ and a version number, or the end of the line"@,
        Expected::HandlerStart => "expected the start of a handler: > {%"@,
        Expected::HandlerEnd => "the handler is not closed: expected %}"@,
    }
}

/// The message for a source that has too many characters to count its
/// lines and columns.
pub open spec fn too_long_message() -> Seq<char> {
    "the source is too long"@
}

/// The error for a failure of the grammar: its message, at the position of
/// the failure.
pub open spec fn error_of(s: Seq<char>, filename: Seq<char>, failure: Failure) -> ErrorView {
    ErrorView {
        message: message_of(failure.expected),
        selection: selection_of(s, filename, Span { start: failure.at, end: failure.at }),
    }
}

/// The error for a source that is too long. It points nowhere.
pub open spec fn too_long_error() -> ErrorView {
    ErrorView { message: too_long_message(), selection: SelectionView::none() }
}

/// What reading a source gives: the file that the grammar finds in it, or
/// the error for the first place where the source does not follow the
/// grammar.
pub open spec fn parsed(filename: Seq<char>, source: Seq<char>) -> Result<crate::model::FileView, ErrorView> {
    if source.len() >= usize::MAX {
        Err(too_long_error())
    } else {
        match grammar::scripts_from(source, 0) {
            Ok(scripts) => Ok(file_of(source, filename, scripts)),
            Err(failure) => Err(error_of(source, filename, failure)),
        }
    }
}

/// What reading one request script at the start of a source gives.
pub open spec fn parsed_request_script(filename: Seq<char>, source: Seq<char>) -> Result<
    crate::model::RequestScriptView<UnprocessedView>,
    ErrorView,
> {
    if source.len() >= usize::MAX {
        Err(too_long_error())
    } else {
        match grammar::script_at(source, 0) {
            Ok(script) => Ok(script_of(source, filename, script)),
            Err(failure) => Err(error_of(source, filename, failure)),
        }
    }
}

/// What reading one request at the start of a source gives. The request ends
/// with its body, or with its header lines.
pub open spec fn parsed_request(filename: Seq<char>, source: Seq<char>) -> Result<
    crate::model::RequestView<UnprocessedView>,
    ErrorView,
> {
    if source.len() >= usize::MAX {
        Err(too_long_error())
    } else {
        match grammar::request_at(source, 0) {
            Ok(request) => Ok(request_of(source, filename, request, request.request_end)),
            Err(failure) => Err(error_of(source, filename, failure)),
        }
    }
}

/// What reading one handler at the start of a source gives.
pub open spec fn parsed_response_handler(filename: Seq<char>, source: Seq<char>) -> Result<
    crate::model::HandlerView,
    ErrorView,
> {
    if source.len() >= usize::MAX {
        Err(too_long_error())
    } else {
        match grammar::handler_at(source, 0) {
            Ok(handler) => Ok(handler_of(source, filename, handler)),
            Err(failure) => Err(error_of(source, filename, failure)),
        }
    }
}

fn message(expected: Expected) -> (text: String)
    ensures
        text@ == message_of(expected),
{
    match expected {
        Expected::Method => "unsupported method: expected GET, POST, PUT, PATCH, DELETE or OPTIONS and a space".to_owned(),
        Expected::Target => "expected the target of the request".to_owned(),
        Expected::Version => "expected HTTP/ and a version number, or the end of the line".to_owned(),
        Expected::HandlerStart => "expected the start of a handler: > {%".to_owned(),
        Expected::HandlerEnd => "the handler is not closed: expected %}".to_owned(),
    }
}

fn too_long() -> (error: Error)
    ensures
        error@ == too_long_error(),
{
    Error { message: "the source is too long".to_owned(), selection: Selection::none() }
}

fn fail(
    chars: &Vec<char>,
    filename: &String,
    locator: &mut Locator,
    expected: Expected,
    at: usize,
) -> (error: Error)
    requires
        old(locator).tracks(chars@),
        at <= chars.len() < usize::MAX,
    ensures
        final(locator).tracks(chars@),
        error@ == error_of(chars@, filename@, Failure { expected, at: at as int }),
{
    let position = locator.seek(chars, at);
    Error {
        message: message(expected),
        selection: Selection { filename: filename.clone(), start: position, end: position },
    }
}

fn read_inline_script(
    chars: &Vec<char>,
    filename: &String,
    locator: &mut Locator,
    start: usize,
    end: usize,
) -> (script: InlineScript)
    requires
        old(locator).tracks(chars@),
        start + 4 <= end <= chars.len() < usize::MAX,
    ensures
        final(locator).tracks(chars@),
        script@ == inline_script_of(
            chars@,
            filename@,
            Span { start: start as int, end: end as int },
        ),
{
    let from = locator.seek(chars, start);
    let to = locator.seek(chars, end);
    let close = end - 2;
    let script_start = scan::skip_spaces(chars, start + 2, close);
    let script_end = scan::skip_spaces_back(chars, script_start, close);
    InlineScript {
        script: slice_to_string(chars, script_start, script_end),
        placeholder: slice_to_string(chars, start, end),
        selection: Selection { filename: filename.clone(), start: from, end: to },
    }
}

/// The text `[start, end)` with its placeholders.
fn read_value(
    chars: &Vec<char>,
    filename: &String,
    locator: &mut Locator,
    start: usize,
    end: usize,
) -> (value: Value<Unprocessed>)
    requires
        old(locator).tracks(chars@),
        start <= end <= chars.len() < usize::MAX,
    ensures
        final(locator).tracks(chars@),
        value@ == value_of(chars@, filename@, Span { start: start as int, end: end as int }),
{
    let from = locator.seek(chars, start);
    let mut inline_scripts: Vec<InlineScript> = Vec::new();
    let ghost mut found: Seq<Span> = Seq::empty();
    let mut i = start;
    while i < end
        invariant
            start <= i <= end <= chars.len() < usize::MAX,
            locator.tracks(chars@),
            found + grammar::placeholders(chars@, i as int, end as int) == grammar::placeholders(
                chars@,
                start as int,
                end as int,
            ),
            inline_scripts@.len() == found.len(),
            forall|k: int|
                0 <= k < found.len() ==> (#[trigger] inline_scripts@[k])@ == inline_script_of(
                    chars@,
                    filename@,
                    found[k],
                ),
        decreases end - i,
    {
        let after = scan::placeholder_end(chars, i);
        if after > i && after <= end {
            proof {
                grammar::lemma_placeholder_bound(chars@, i as int);
            }
            let script = read_inline_script(chars, filename, locator, i, after);
            let ghost span = Span { start: i as int, end: after as int };
            proof {
                assert(found + (seq![span] + grammar::placeholders(chars@, after as int, end as int))
                    =~= found.push(span) + grammar::placeholders(chars@, after as int, end as int));
                found = found.push(span);
            }
            inline_scripts.push(script);
            i = after;
        } else {
            i += 1;
        }
    }
    assert(found =~= grammar::placeholders(chars@, start as int, end as int));
    assert(inline_script_views(inline_scripts@) =~= inline_scripts_of(chars@, filename@, found));
    let to = locator.seek(chars, end);
    let text = slice_to_string(chars, start, end);
    let selection = Selection { filename: filename.clone(), start: from, end: to };
    if inline_scripts.len() > 0 {
        Value { state: Unprocessed::WithInline { value: text, inline_scripts, selection } }
    } else {
        Value { state: Unprocessed::WithoutInline(text, selection) }
    }
}

fn read_method(method: MethodKind, selection: Selection) -> (r: Method)
    ensures
        r@ == method_of(method, selection@),
{
    match method {
        MethodKind::Get => Method::Get(selection),
        MethodKind::Post => Method::Post(selection),
        MethodKind::Delete => Method::Delete(selection),
        MethodKind::Put => Method::Put(selection),
        MethodKind::Patch => Method::Patch(selection),
        MethodKind::Options => Method::Options(selection),
    }
}

/// The header lines from `start` on, and where they end.
fn read_head(chars: &Vec<char>, filename: &String, locator: &mut Locator, start: usize) -> (r: (
    Vec<Header<Unprocessed>>,
    usize,
))
    requires
        old(locator).tracks(chars@),
        start <= chars.len() < usize::MAX,
    ensures
        final(locator).tracks(chars@),
        header_views(r.0@) == headers_of(
            chars@,
            filename@,
            grammar::head_headers(chars@, start as int),
        ),
        r.1 == start + grammar::head_run(chars@, start as int),
        r.1 <= chars.len(),
{
    let mut headers: Vec<Header<Unprocessed>> = Vec::new();
    let ghost mut found: Seq<HeaderSpans> = Seq::empty();
    let mut q = start;
    loop
        invariant
            start <= q <= chars.len() < usize::MAX,
            locator.tracks(chars@),
            q - start + grammar::head_run(chars@, q as int) == grammar::head_run(
                chars@,
                start as int,
            ),
            found + grammar::head_headers(chars@, q as int) == grammar::head_headers(
                chars@,
                start as int,
            ),
            headers@.len() == found.len(),
            forall|k: int|
                0 <= k < found.len() ==> (#[trigger] headers@[k])@ == header_of(
                    chars@,
                    filename@,
                    found[k],
                ),
        ensures
            start <= q <= chars.len(),
            locator.tracks(chars@),
            q == start + grammar::head_run(chars@, start as int),
            found == grammar::head_headers(chars@, start as int),
            headers@.len() == found.len(),
            forall|k: int|
                0 <= k < found.len() ==> (#[trigger] headers@[k])@ == header_of(
                    chars@,
                    filename@,
                    found[k],
                ),
        decreases chars.len() - q,
    {
        if q >= chars.len() {
            assert(found =~= found + grammar::head_headers(chars@, q as int));
            break;
        }
        proof {
            grammar::lemma_rest_of_line_bound(chars@, q as int);
            grammar::lemma_header_bound(chars@, q as int);
        }
        if scan::is_comment(chars, q) {
            q = scan::next_line(chars, q);
        } else {
            match scan::header_at(chars, q) {
                Some(at) => {
                    let ghost spans = grammar::header_at(chars@, q as int)->Some_0;
                    let from = locator.seek(chars, q);
                    let field_name = slice_to_string(chars, q, at.name_end);
                    let field_value = read_value(
                        chars,
                        filename,
                        locator,
                        at.value_start,
                        at.value_end,
                    );
                    let to = locator.seek(chars, at.value_end);
                    let next = scan::next_line(chars, at.value_end);
                    proof {
                        assert(found + (seq![spans] + grammar::head_headers(chars@, next as int))
                            =~= found.push(spans) + grammar::head_headers(chars@, next as int));
                        found = found.push(spans);
                    }
                    headers.push(
                        Header {
                            field_name,
                            field_value,
                            selection: Selection { filename: filename.clone(), start: from, end: to },
                        },
                    );
                    q = next;
                },
                None => {
                    assert(found =~= found + grammar::head_headers(chars@, q as int));
                    break;
                },
            }
        }
    }
    assert(header_views(headers@) =~= headers_of(chars@, filename@, found));
    (headers, q)
}

/// The parts of a request, before its selection is known.
struct RequestParts {
    start: Position,
    method: Method,
    target: Value<Unprocessed>,
    headers: Vec<Header<Unprocessed>>,
    body: Option<Value<Unprocessed>>,
    end: usize,
}

impl RequestParts {
    /// The request with `end` as the end of its selection.
    fn into_request(self, filename: &String, end: Position) -> (request: Request<Unprocessed>)
        ensures
            request@ == (crate::model::RequestView {
                method: self.method@,
                target: self.target@,
                headers: header_views(self.headers@),
                body: match self.body {
                    Some(body) => Some(body@),
                    None => None,
                },
                selection: SelectionView { filename: filename@, start: self.start, end },
            }),
    {
        Request {
            method: self.method,
            target: self.target,
            headers: self.headers,
            body: self.body,
            selection: Selection { filename: filename.clone(), start: self.start, end },
        }
    }

    spec fn matches(self, s: Seq<char>, filename: Seq<char>, script: ScriptSpans) -> bool {
        &&& self.start == position_at(s, script.start)
        &&& self.method@ == method_of(
            script.method,
            selection_of(
                s,
                filename,
                Span { start: script.start, end: script.start + script.method.len() },
            ),
        )
        &&& self.target@ == value_of(s, filename, script.target)
        &&& header_views(self.headers@) == headers_of(s, filename, script.headers)
        &&& match script.body {
            Some(body) => self.body is Some && self.body->Some_0@ == value_of(s, filename, body),
            None => self.body is None,
        }
        &&& self.end == script.request_end
    }
}

/// The request that begins at `p`.
fn read_request(chars: &Vec<char>, filename: &String, locator: &mut Locator, p: usize) -> (r: Result<
    RequestParts,
    Error,
>)
    requires
        old(locator).tracks(chars@),
        p <= chars.len() < usize::MAX,
    ensures
        final(locator).tracks(chars@),
        match grammar::request_at(chars@, p as int) {
            Ok(request) => r is Ok && r->Ok_0.matches(chars@, filename@, request)
                && request.request_end <= chars.len(),
            Err(failure) => r is Err && r->Err_0@ == error_of(chars@, filename@, failure),
        },
{
    proof {
        grammar::lemma_request_bound(chars@, p as int);
    }
    let line = match scan::request_line(chars, p) {
        Ok(line) => line,
        Err((expected, at)) => {
            return Err(fail(chars, filename, locator, expected, at));
        },
    };
    let start = locator.seek(chars, p);
    let method_end = locator.seek(chars, line.method_end);
    let method = read_method(
        line.method,
        Selection { filename: filename.clone(), start, end: method_end },
    );
    let target = read_value(chars, filename, locator, line.target_start, line.target_end);
    let head_start = line.end + scan::newline_len(chars, line.end);
    let (headers, head_end) = read_head(chars, filename, locator, head_start);
    let body_start = scan::skip_blank_lines(chars, head_end);
    if body_start > head_end && body_start < chars.len() && !scan::is_separator(chars, body_start)
        && !scan::is_handler_start(chars, body_start) {
        let body_end = scan::value_end(chars, body_start, ValueKind::Body);
        let body = read_value(chars, filename, locator, body_start, body_end);
        Ok(RequestParts { start, method, target, headers, body: Some(body), end: body_end })
    } else {
        let end = scan::skip_lines_of_blanks(chars, head_end);
        Ok(RequestParts { start, method, target, headers, body: None, end })
    }
}

/// The handler that begins at `p`.
fn read_handler(chars: &Vec<char>, filename: &String, locator: &mut Locator, p: usize) -> (r: Result<
    (Handler, usize),
    Error,
>)
    requires
        old(locator).tracks(chars@),
        p <= chars.len() < usize::MAX,
    ensures
        final(locator).tracks(chars@),
        match grammar::handler_at(chars@, p as int) {
            Ok(handler) => r is Ok && r->Ok_0.0@ == handler_of(chars@, filename@, handler)
                && r->Ok_0.1 == handler.outer.end && handler.outer.end <= chars.len(),
            Err(failure) => r is Err && r->Err_0@ == error_of(chars@, filename@, failure),
        },
{
    proof {
        grammar::lemma_handler_bound(chars@, p as int);
    }
    if !scan::is_handler_start(chars, p) {
        return Err(fail(chars, filename, locator, Expected::HandlerStart, p));
    }
    let close = match scan::closing_mark(chars, p + 4) {
        Some(close) => close,
        None => {
            return Err(fail(chars, filename, locator, Expected::HandlerEnd, p));
        },
    };
    let from = locator.seek(chars, p);
    let to = locator.seek(chars, close + 2);
    let script_start = scan::skip_spaces(chars, p + 4, close);
    let script_end = scan::skip_spaces_back(chars, script_start, close);
    Ok(
        (
            Handler {
                script: slice_to_string(chars, script_start, script_end),
                selection: Selection { filename: filename.clone(), start: from, end: to },
            },
            close + 2,
        ),
    )
}

/// The request script that begins at `p`, and where it ends.
fn read_script(chars: &Vec<char>, filename: &String, locator: &mut Locator, p: usize) -> (r: Result<
    (RequestScript<Unprocessed>, usize),
    Error,
>)
    requires
        old(locator).tracks(chars@),
        p <= chars.len() < usize::MAX,
    ensures
        final(locator).tracks(chars@),
        match grammar::script_at(chars@, p as int) {
            Ok(script) => r is Ok && r->Ok_0.0@ == script_of(chars@, filename@, script)
                && r->Ok_0.1 == script.end && p < script.end <= chars.len(),
            Err(failure) => r is Err && r->Err_0@ == error_of(chars@, filename@, failure),
        },
{
    proof {
        grammar::lemma_script_bound(chars@, p as int);
    }
    let parts = match read_request(chars, filename, locator, p) {
        Ok(parts) => parts,
        Err(error) => {
            return Err(error);
        },
    };
    let start = parts.start;
    let handler_start = scan::past_blank_lines(chars, parts.end);
    if scan::is_handler_start(chars, handler_start) {
        let (handler, end) = match read_handler(chars, filename, locator, handler_start) {
            Ok(found) => found,
            Err(error) => {
                return Err(error);
            },
        };
        let to = locator.seek(chars, end);
        let request = parts.into_request(filename, to);
        Ok(
            (
                RequestScript {
                    request,
                    handler: Some(handler),
                    selection: Selection { filename: filename.clone(), start, end: to },
                },
                end,
            ),
        )
    } else {
        let end = parts.end;
        let to = locator.seek(chars, end);
        let request = parts.into_request(filename, to);
        Ok(
            (
                RequestScript {
                    request,
                    handler: None,
                    selection: Selection { filename: filename.clone(), start, end: to },
                },
                end,
            ),
        )
    }
}

/// Reads a request file.
///
/// The result is the file that the grammar finds in the source, with every
/// node's selection in `filename`, or the error for the first place where the
/// source does not follow the grammar. Nothing of a file with an error is
/// handed out. The request scripts of the file stand one after the other.
pub fn parse(filename: String, source: &str) -> (r: Result<File, Error>)
    ensures
        match parsed(filename@, source@) {
            Ok(file) => r is Ok && r->Ok_0@ == file && crate::select::in_order(file),
            Err(error) => r is Err && r->Err_0@ == error,
        },
{
    proof {
        if parsed(filename@, source@) is Ok {
            laws::lemma_parsed_in_order(filename@, source@);
        }
    }
    read_file(filename, source)
}

/// Reads the request scripts of a source one after the other.
#[verifier::rlimit(50)]
fn read_file(filename: String, source: &str) -> (r: Result<File, Error>)
    ensures
        match parsed(filename@, source@) {
            Ok(file) => r is Ok && r->Ok_0@ == file,
            Err(error) => r is Err && r->Err_0@ == error,
        },
{
    let chars = to_chars(source);
    if chars.len() == usize::MAX {
        return Err(too_long());
    }
    let mut locator = Locator::new();
    let mut request_scripts: Vec<RequestScript<Unprocessed>> = Vec::new();
    let ghost mut found: Seq<ScriptSpans> = Seq::empty();
    let mut q: usize = 0;
    loop
        invariant
            q <= chars.len() < usize::MAX,
            chars@ == source@,
            locator.tracks(chars@),
            match grammar::scripts_from(chars@, 0) {
                Ok(all) => grammar::scripts_from(chars@, q as int) is Ok && found
                    + grammar::scripts_from(chars@, q as int)->Ok_0 == all,
                Err(failure) => grammar::scripts_from(chars@, q as int) == Err::<
                    Seq<ScriptSpans>,
                    Failure,
                >(failure),
            },
            request_scripts@.len() == found.len(),
            forall|k: int|
                0 <= k < found.len() ==> (#[trigger] request_scripts@[k])@ == script_of(
                    chars@,
                    filename@,
                    found[k],
                ),
        decreases chars.len() - q,
    {
        let start = scan::skip_gap(&chars, q);
        if start >= chars.len() {
            assert(found + Seq::<ScriptSpans>::empty() =~= found);
            assert(request_script_views(request_scripts@) =~= scripts_of(
                chars@,
                filename@,
                found,
            ));
            return Ok(File { request_scripts });
        }
        let (script, end) = match read_script(&chars, &filename, &mut locator, start) {
            Ok(read) => read,
            Err(error) => {
                return Err(error);
            },
        };
        proof {
            let spans = grammar::script_at(chars@, start as int)->Ok_0;
            let rest = grammar::scripts_from(chars@, end as int);
            if let Ok(rest) = rest {
                assert(found + (seq![spans] + rest) =~= found.push(spans) + rest);
            }
            found = found.push(spans);
        }
        request_scripts.push(script);
        q = end;
    }
}

/// Reads the request script with which the source begins. What follows it
/// is not looked at.
pub fn parse_request_script(filename: String, source: &str) -> (r: Result<
    RequestScript<Unprocessed>,
    Error,
>)
    ensures
        match parsed_request_script(filename@, source@) {
            Ok(script) => r is Ok && r->Ok_0@ == script,
            Err(error) => r is Err && r->Err_0@ == error,
        },
{
    let chars = to_chars(source);
    if chars.len() == usize::MAX {
        return Err(too_long());
    }
    let mut locator = Locator::new();
    match read_script(&chars, &filename, &mut locator, 0) {
        Ok((script, _)) => Ok(script),
        Err(error) => Err(error),
    }
}

/// Reads the request with which the source begins: request line, headers
/// and body. What follows it is not looked at.
pub fn parse_request(filename: String, source: &str) -> (r: Result<Request<Unprocessed>, Error>)
    ensures
        match parsed_request(filename@, source@) {
            Ok(request) => r is Ok && r->Ok_0@ == request,
            Err(error) => r is Err && r->Err_0@ == error,
        },
{
    let chars = to_chars(source);
    if chars.len() == usize::MAX {
        return Err(too_long());
    }
    let mut locator = Locator::new();
    match read_request(&chars, &filename, &mut locator, 0) {
        Ok(parts) => {
            let to = locator.seek(&chars, parts.end);
            Ok(parts.into_request(&filename, to))
        },
        Err(error) => Err(error),
    }
}

/// Reads the handler with which the source begins. What follows it is not
/// looked at.
pub fn parse_response_handler(filename: String, source: &str) -> (r: Result<Handler, Error>)
    ensures
        match parsed_response_handler(filename@, source@) {
            Ok(handler) => r is Ok && r->Ok_0@ == handler,
            Err(error) => r is Err && r->Err_0@ == error,
        },
{
    let chars = to_chars(source);
    if chars.len() == usize::MAX {
        return Err(too_long());
    }
    let mut locator = Locator::new();
    match read_handler(&chars, &filename, &mut locator, 0) {
        Ok((handler, _)) => Ok(handler),
        Err(error) => Err(error),
    }
}

} // verus!
