//! Writing requests and responses as text, after a format that the user
//! gives.
//!
//! A format is a text in which `%R` stands for the first line, `%H` for the
//! headers and `%B` for the body; `%%` is a percent sign, and everything
//! else stands for itself.

use crate::script_engine::json::{
    json_of, json_pretty, pair_views, read_json, write_json_pretty, Json, JsonView,
};
use crate::{Method, Request, RequestView, Response, ResponseView, Version};
use vstd::prelude::*;
use vstd::string::StringExecFns;

verus! {

/// One piece of a format.
#[derive(Debug, PartialEq, Eq, Clone)]
pub enum FormatItem {
    FirstLine,
    Headers,
    Body,
    Chars(String),
}

pub enum FormatItemView {
    FirstLine,
    Headers,
    Body,
    Chars(Seq<char>),
}

impl View for FormatItem {
    type V = FormatItemView;

    open spec fn view(&self) -> FormatItemView {
        match self {
            FormatItem::FirstLine => FormatItemView::FirstLine,
            FormatItem::Headers => FormatItemView::Headers,
            FormatItem::Body => FormatItemView::Body,
            FormatItem::Chars(text) => FormatItemView::Chars(text@),
        }
    }
}

pub open spec fn format_views(items: Seq<FormatItem>) -> Seq<FormatItemView> {
    Seq::new(items.len(), |i: int| items[i]@)
}

/// A format names a character behind `%` that stands for nothing.
#[derive(Debug, PartialEq, Eq, Clone, Copy)]
pub struct FormatError {
    pub character: char,
}

impl FormatError {
    pub open spec fn message_text(self) -> Seq<char> {
        "Invalid formatting character '"@.push(self.character) + "'"@
    }

    /// The message for the user.
    pub fn message(&self) -> (text: String)
        ensures
            text@ == self.message_text(),
    {
        let mut text = "Invalid formatting character '".to_owned();
        text.push(self.character);
        text.append("'");
        text
    }
}

/// Where reading a format stands: the items that are complete, the plain
/// text read since the last of them, and whether a `%` waits for its
/// character.
pub struct Reading {
    pub items: Seq<FormatItemView>,
    pub text: Seq<char>,
    pub marked: bool,
}

impl Reading {
    /// The items with the plain text that is still open closed as one more.
    pub open spec fn closed(self) -> Seq<FormatItemView> {
        if self.text.len() > 0 {
            self.items.push(FormatItemView::Chars(self.text))
        } else {
            self.items
        }
    }

    /// The reading after the item that a `%` and its character stand for.
    pub open spec fn with_item(self, item: FormatItemView) -> Reading {
        Reading { items: self.closed().push(item), text: Seq::empty(), marked: false }
    }

    /// The reading after one more character, or the character that no `%`
    /// may stand before.
    pub open spec fn after(self, c: char) -> Result<Reading, char> {
        if self.marked {
            if c == '%' {
                Ok(Reading { text: self.text.push(c), marked: false, ..self })
            } else if c == 'R' {
                Ok(self.with_item(FormatItemView::FirstLine))
            } else if c == 'H' {
                Ok(self.with_item(FormatItemView::Headers))
            } else if c == 'B' {
                Ok(self.with_item(FormatItemView::Body))
            } else {
                Err(c)
            }
        } else if c == '%' {
            Ok(Reading { marked: true, ..self })
        } else {
            Ok(Reading { text: self.text.push(c), ..self })
        }
    }
}

/// The reading after the first `n` characters of a format.
pub open spec fn read_format(format: Seq<char>, n: nat) -> Result<Reading, char>
    decreases n,
{
    if n == 0 || n > format.len() {
        Ok(Reading { items: Seq::empty(), text: Seq::empty(), marked: false })
    } else {
        match read_format(format, (n - 1) as nat) {
            Ok(reading) => reading.after(format[n - 1]),
            Err(c) => Err(c),
        }
    }
}

/// The items of a format, or the first character behind a `%` that stands
/// for nothing. A `%` at the very end is dropped.
pub open spec fn format_items(format: Seq<char>) -> Result<Seq<FormatItemView>, char> {
    match read_format(format, format.len()) {
        Ok(reading) => Ok(reading.closed()),
        Err(c) => Err(c),
    }
}

/// Reads a format.
pub fn parse_format(format: &str) -> (result: Result<Vec<FormatItem>, FormatError>)
    ensures
        match format_items(format@) {
            Ok(items) => result is Ok && format_views(result->Ok_0@) == items,
            Err(c) => result == Err::<Vec<FormatItem>, FormatError>(FormatError { character: c }),
        },
{
    let chars = crate::text::to_chars(format);
    let mut items: Vec<FormatItem> = Vec::new();
    let mut marked = false;
    let mut text = String::new();
    let mut i: usize = 0;
    assert(format_views(items@) =~= Seq::empty());
    while i < chars.len()
        invariant
            i <= chars.len(),
            chars@ == format@,
            read_format(format@, i as nat) == Ok::<Reading, char>(
                Reading { items: format_views(items@), text: text@, marked },
            ),
        decreases chars.len() - i,
    {
        let c = chars[i];
        let ghost reading = Reading { items: format_views(items@), text: text@, marked };
        if marked {
            marked = false;
            let item = if c == '%' {
                None
            } else if c == 'R' {
                Some(FormatItem::FirstLine)
            } else if c == 'H' {
                Some(FormatItem::Headers)
            } else if c == 'B' {
                Some(FormatItem::Body)
            } else {
                proof {
                    assert(read_format(format@, (i + 1) as nat) == Err::<Reading, char>(c));
                    lemma_read_format_fails(format@, (i + 1) as nat, format@.len());
                }
                return Err(FormatError { character: c });
            };
            match item {
                Some(item) => {
                    if !text.as_str().is_empty() {
                        let ghost before = format_views(items@);
                        items.push(FormatItem::Chars(text));
                        text = String::new();
                        assert(format_views(items@) =~= reading.closed());
                    }
                    assert(text@ =~= Seq::<char>::empty());
                    let ghost closed = format_views(items@);
                    items.push(item);
                    assert(format_views(items@) =~= closed.push(item@));
                },
                None => {
                    text.push(c);
                },
            }
        } else if c == '%' {
            marked = true;
        } else {
            text.push(c);
        }
        i += 1;
    }
    if !text.as_str().is_empty() {
        let ghost before = format_views(items@);
        items.push(FormatItem::Chars(text));
        assert(format_views(items@) =~= before.push(FormatItemView::Chars(text@)));
    }
    Ok(items)
}

/// Once reading a format has failed, it has failed for good.
proof fn lemma_read_format_fails(format: Seq<char>, n: nat, m: nat)
    requires
        read_format(format, n) is Err,
        n <= m <= format.len(),
    ensures
        read_format(format, m) == read_format(format, n),
    decreases m - n,
{
    if n < m {
        lemma_read_format_fails(format, n, (m - 1) as nat);
    }
}

/// A body that is a JSON object, indented; any other body as it is: a
/// text that is no JSON, and a JSON value that is no object.
pub open spec fn pretty_body(body: Seq<char>) -> Seq<char> {
    match json_of(body) {
        JsonView::Object { .. } => match json_pretty(body) {
            Some(pretty) => pretty,
            None => body,
        },
        _ => body,
    }
}

/// A body that is a JSON object, indented; any other body as it is.
pub fn prettify_response_body(body: &str) -> (pretty: String)
    ensures
        pretty@ == pretty_body(body@),
{
    indent_object(body, &read_json(body))
}

/// A body that has been read: indented where it is an object, else as it
/// is.
pub fn indent_object(body: &str, read: &Json) -> (pretty: String)
    ensures
        pretty@ == (match read@ {
            JsonView::Object { .. } => match json_pretty(body@) {
                Some(pretty) => pretty,
                None => body@,
            },
            _ => body@,
        }),
{
    match read {
        Json::Object { .. } => match write_json_pretty(body) {
            Some(pretty) => pretty,
            None => body.to_owned(),
        },
        _ => body.to_owned(),
    }
}

/// Each header on a line of its own: name, colon, space, value.
pub open spec fn headers_text(headers: Seq<(Seq<char>, Seq<char>)>) -> Seq<char>
    decreases headers.len(),
{
    if headers.len() == 0 {
        Seq::empty()
    } else {
        headers_text(headers.drop_last()) + headers.last().0 + ": "@ + headers.last().1 + "\n"@
    }
}

/// Each header on a line of its own: name, colon, space, value.
pub fn format_headers(headers: &Vec<(String, String)>) -> (text: String)
    ensures
        text@ == headers_text(pair_views(headers@)),
{
    let mut text = String::new();
    let mut i: usize = 0;
    let ghost pairs = pair_views(headers@);
    assert(pairs.take(0) =~= Seq::empty());
    while i < headers.len()
        invariant
            i <= headers.len(),
            pairs == pair_views(headers@),
            text@ == headers_text(pairs.take(i as int)),
        decreases headers.len() - i,
    {
        proof {
            assert(pairs.take(i + 1).drop_last() =~= pairs.take(i as int));
            assert(pairs.take(i + 1).last() == pairs[i as int]);
        }
        text.append(headers[i].0.as_str());
        text.append(": ");
        text.append(headers[i].1.as_str());
        text.append("\n");
        i += 1;
    }
    assert(pairs.take(i as int) =~= pairs);
    text
}

/// The body as it is written: indented where it is a JSON object, and
/// nothing where there is none.
pub open spec fn body_text(body: Option<Seq<char>>) -> Seq<char> {
    match body {
        Some(body) => pretty_body(body),
        None => Seq::empty(),
    }
}

/// The body as it is written.
pub fn format_body(body: &Option<String>) -> (text: String)
    ensures
        text@ == body_text(
            match body {
                Some(body) => Some(body@),
                None => None,
            },
        ),
{
    match body {
        Some(body) => prettify_response_body(body.as_str()),
        None => String::new(),
    }
}

/// The token of a method.
pub open spec fn method_text(method: Method) -> Seq<char> {
    match method {
        Method::Get => "GET"@,
        Method::Post => "POST"@,
        Method::Delete => "DELETE"@,
        Method::Put => "PUT"@,
        Method::Patch => "PATCH"@,
        Method::Options => "OPTIONS"@,
    }
}

/// The name of a protocol version.
pub open spec fn version_text(version: Version) -> Seq<char> {
    match version {
        Version::Http09 => "HTTP/0.9"@,
        Version::Http2 => "HTTP/2.0"@,
        Version::Http10 => "HTTP/1.0"@,
        Version::Http11 => "HTTP/1.1"@,
    }
}

impl Method {
    /// The token of the method.
    pub fn name(&self) -> (name: &'static str)
        ensures
            name@ == method_text(*self),
    {
        match self {
            Method::Get => "GET",
            Method::Post => "POST",
            Method::Delete => "DELETE",
            Method::Put => "PUT",
            Method::Patch => "PATCH",
            Method::Options => "OPTIONS",
        }
    }
}

impl Version {
    /// The name of the protocol version.
    pub fn name(&self) -> (name: &'static str)
        ensures
            name@ == version_text(*self),
    {
        match self {
            Version::Http09 => "HTTP/0.9",
            Version::Http2 => "HTTP/2.0",
            Version::Http10 => "HTTP/1.0",
            Version::Http11 => "HTTP/1.1",
        }
    }
}

/// The first line of a request: method, space, target.
pub open spec fn request_line_text(request: RequestView) -> Seq<char> {
    method_text(request.method) + " "@ + request.target
}

/// The first line of a response: version, space, status.
pub open spec fn status_line_text(response: ResponseView) -> Seq<char> {
    version_text(response.version) + " "@ + response.status
}

/// What one item of a format stands for.
pub open spec fn item_text(
    item: FormatItemView,
    first_line: Seq<char>,
    headers: Seq<char>,
    body: Seq<char>,
) -> Seq<char> {
    match item {
        FormatItemView::FirstLine => first_line,
        FormatItemView::Headers => headers,
        FormatItemView::Body => body,
        FormatItemView::Chars(text) => text,
    }
}

/// What a format stands for, given the three parts that it may name.
pub open spec fn formatted(
    items: Seq<FormatItemView>,
    first_line: Seq<char>,
    headers: Seq<char>,
    body: Seq<char>,
) -> Seq<char>
    decreases items.len(),
{
    if items.len() == 0 {
        Seq::empty()
    } else {
        formatted(items.drop_last(), first_line, headers, body) + item_text(
            items.last(),
            first_line,
            headers,
            body,
        )
    }
}

/// Writes the three parts after a format.
pub fn format_parts(items: &Vec<FormatItem>, first_line: &str, headers: &str, body: &str) -> (text:
    String)
    ensures
        text@ == formatted(format_views(items@), first_line@, headers@, body@),
{
    let mut text = String::new();
    let mut i: usize = 0;
    let ghost views = format_views(items@);
    assert(views.take(0) =~= Seq::empty());
    while i < items.len()
        invariant
            i <= items.len(),
            views == format_views(items@),
            text@ == formatted(views.take(i as int), first_line@, headers@, body@),
        decreases items.len() - i,
    {
        proof {
            assert(views.take(i + 1).drop_last() =~= views.take(i as int));
            assert(views.take(i + 1).last() == views[i as int]);
        }
        match &items[i] {
            FormatItem::FirstLine => text.append(first_line),
            FormatItem::Headers => text.append(headers),
            FormatItem::Body => text.append(body),
            FormatItem::Chars(chars) => text.append(chars.as_str()),
        }
        i += 1;
    }
    assert(views.take(i as int) =~= views);
    text
}

/// Writes requests and responses, each after a format of its own.
#[derive(Debug, PartialEq, Eq, Clone)]
pub struct FormattedOutputter {
    pub request_format: Vec<FormatItem>,
    pub response_format: Vec<FormatItem>,
}

impl FormattedOutputter {
    pub fn new(request_format: Vec<FormatItem>, response_format: Vec<FormatItem>) -> (outputter:
        FormattedOutputter)
        ensures
            outputter.request_format == request_format,
            outputter.response_format == response_format,
    {
        FormattedOutputter { request_format, response_format }
    }

    /// The text for a request.
    pub fn request(&self, request: &Request) -> (text: String)
        ensures
            text@ == formatted(
                format_views(self.request_format@),
                request_line_text(request@),
                headers_text(request@.headers),
                body_text(request@.body),
            ),
    {
        let mut first_line = request.method.name().to_owned();
        first_line.append(" ");
        first_line.append(request.target.as_str());
        let headers = format_headers(&request.headers);
        let body = format_body(&request.body);
        format_parts(&self.request_format, first_line.as_str(), headers.as_str(), body.as_str())
    }

    /// The text for a response.
    pub fn response(&self, response: &Response) -> (text: String)
        ensures
            text@ == formatted(
                format_views(self.response_format@),
                status_line_text(response@),
                headers_text(response@.headers),
                body_text(response@.body),
            ),
    {
        let mut first_line = response.version.name().to_owned();
        first_line.append(" ");
        first_line.append(response.status.as_str());
        let headers = format_headers(&response.headers);
        let body = format_body(&response.body);
        format_parts(&self.response_format, first_line.as_str(), headers.as_str(), body.as_str())
    }
}

/// What writes requests and responses as text.
pub trait Outputter {
    /// The text for a request.
    spec fn request_text(&self, request: RequestView) -> Seq<char>;

    /// The text for a response.
    spec fn response_text(&self, response: ResponseView) -> Seq<char>;

    /// Writes a request.
    fn output_request(&self, request: &Request) -> (text: String)
        ensures
            text@ == self.request_text(request@),
    ;

    /// Writes a response.
    fn output_response(&self, response: &Response) -> (text: String)
        ensures
            text@ == self.response_text(response@),
    ;
}

impl Outputter for FormattedOutputter {
    open spec fn request_text(&self, request: RequestView) -> Seq<char> {
        formatted(
            format_views(self.request_format@),
            request_line_text(request),
            headers_text(request.headers),
            body_text(request.body),
        )
    }

    open spec fn response_text(&self, response: ResponseView) -> Seq<char> {
        formatted(
            format_views(self.response_format@),
            status_line_text(response),
            headers_text(response.headers),
            body_text(response.body),
        )
    }

    fn output_request(&self, request: &Request) -> (text: String) {
        self.request(request)
    }

    fn output_response(&self, response: &Response) -> (text: String) {
        self.response(response)
    }
}

/// Each header behind a line break of its own: name, colon, space, value.
pub open spec fn headers_below(headers: Seq<(Seq<char>, Seq<char>)>) -> Seq<char>
    decreases headers.len(),
{
    if headers.len() == 0 {
        Seq::empty()
    } else {
        headers_below(headers.drop_last()) + "\n"@ + headers.last().0 + ": "@ + headers.last().1
    }
}

/// Writes the first line of a request, and a response whole: status line,
/// headers, an empty line, and the body.
#[derive(Debug, PartialEq, Eq, Clone, Copy)]
pub struct DefaultOutputter;

impl Default for DefaultOutputter {
    fn default() -> DefaultOutputter {
        DefaultOutputter {  }
    }
}

impl Outputter for DefaultOutputter {
    open spec fn request_text(&self, request: RequestView) -> Seq<char> {
        request_line_text(request) + "\n\n"@
    }

    open spec fn response_text(&self, response: ResponseView) -> Seq<char> {
        status_line_text(response) + headers_below(response.headers) + "\n\n"@ + body_text(
            response.body,
        ) + "\n"@
    }

    fn output_request(&self, request: &Request) -> (text: String) {
        let mut text = request.method.name().to_owned();
        text.append(" ");
        text.append(request.target.as_str());
        text.append("\n\n");
        text
    }

    fn output_response(&self, response: &Response) -> (text: String) {
        let mut text = response.version.name().to_owned();
        text.append(" ");
        text.append(response.status.as_str());
        let ghost pairs = pair_views(response.headers@);
        let ghost first_line = text@;
        let mut i: usize = 0;
        assert(pairs.take(0) =~= Seq::empty());
        assert(text@ =~= first_line + headers_below(pairs.take(0)));
        while i < response.headers.len()
            invariant
                i <= response.headers.len(),
                pairs == pair_views(response.headers@),
                text@ == first_line + headers_below(pairs.take(i as int)),
            decreases response.headers.len() - i,
        {
            proof {
                assert(pairs.take(i + 1).drop_last() =~= pairs.take(i as int));
                assert(pairs.take(i + 1).last() == pairs[i as int]);
            }
            let ghost before = text@;
            text.append("\n");
            text.append(response.headers[i].0.as_str());
            text.append(": ");
            text.append(response.headers[i].1.as_str());
            i += 1;
            assert(text@ =~= first_line + headers_below(pairs.take(i as int)));
        }
        assert(pairs.take(i as int) =~= pairs);
        text.append("\n\n");
        let body = format_body(&response.body);
        text.append(body.as_str());
        text.append("\n");
        text
    }
}

/// Writes nothing.
#[derive(Debug, PartialEq, Eq, Clone, Copy)]
pub struct QuietOutputter;

impl Default for QuietOutputter {
    fn default() -> QuietOutputter {
        QuietOutputter {  }
    }
}

impl Outputter for QuietOutputter {
    open spec fn request_text(&self, request: RequestView) -> Seq<char> {
        Seq::empty()
    }

    open spec fn response_text(&self, response: ResponseView) -> Seq<char> {
        Seq::empty()
    }

    fn output_request(&self, request: &Request) -> (text: String) {
        String::new()
    }

    fn output_response(&self, response: &Response) -> (text: String) {
        String::new()
    }
}

} // verus!
