//! The grammar of request files, stated over the characters of the source.
//!
//! A file is a sequence of request scripts. Between them stand blank lines and
//! lines that begin with `#` (comments, and the separator `###`). A request
//! script is a request line, header lines, an optional body after a blank
//! line, and an optional handler between `> {%` and `%}`. A request script
//! without body and handler takes with it the lines of spaces and tabs that
//! follow its last header line directly.
//!
//! Every function here takes the whole source and a position in it, and says
//! how far a piece of the grammar reaches from there.

use vstd::prelude::*;

verus! {

/// A stretch of the source, from `start` up to `end`.
pub struct Span {
    pub start: int,
    pub end: int,
}

/// The six request methods.
#[derive(Clone, Copy, PartialEq, Eq, Debug)]
pub enum MethodKind {
    Get,
    Post,
    Delete,
    Put,
    Patch,
    Options,
}

/// What the grammar asked for where the source did not have it.
#[derive(Clone, Copy, PartialEq, Eq, Debug)]
pub enum Expected {
    /// One of the six method tokens, followed by a space.
    Method,
    /// The target of the request.
    Target,
    /// `HTTP/` and a version number, or the end of the line.
    Version,
    /// The opening `> {%` of a handler.
    HandlerStart,
    /// The closing `%}` of a handler.
    HandlerEnd,
}

/// A place where the source does not follow the grammar.
pub struct Failure {
    pub expected: Expected,
    pub at: int,
}

/// The three kinds of text that may hold placeholders.
#[derive(Clone, Copy, PartialEq, Eq, Debug)]
pub enum ValueKind {
    Target,
    HeaderValue,
    Body,
}

pub struct HeaderSpans {
    pub name: Span,
    pub value: Span,
}

pub struct HandlerSpans {
    pub outer: Span,
    pub script: Span,
}

pub struct RequestLine {
    pub method: MethodKind,
    pub target: Span,
    /// Where the line ends: at its line break, or at the end of the source.
    pub end: int,
}

pub struct ScriptSpans {
    pub start: int,
    pub method: MethodKind,
    pub target: Span,
    pub headers: Seq<HeaderSpans>,
    pub body: Option<Span>,
    pub handler: Option<HandlerSpans>,
    /// Where the request ends, the handler left aside.
    pub request_end: int,
    /// Where the script ends.
    pub end: int,
}

// ---------------------------------------------------------------------------
// Characters and lines
// ---------------------------------------------------------------------------

/// A space or a tab.
pub open spec fn is_blank(c: char) -> bool {
    c == ' ' || c == '\t'
}

/// A blank or a character of a line break.
pub open spec fn is_space(c: char) -> bool {
    is_blank(c) || c == '\n' || c == '\r'
}

pub open spec fn is_digit(c: char) -> bool {
    '0' <= c <= '9'
}

/// The length of the line break at `p`: 1 for a line feed, 2 for a carriage
/// return with a line feed, 0 where no line break stands.
pub open spec fn newline_len(s: Seq<char>, p: int) -> nat {
    if 0 <= p < s.len() && s[p] == '\n' {
        1
    } else if 0 <= p && p + 1 < s.len() && s[p] == '\r' && s[p + 1] == '\n' {
        2
    } else {
        0
    }
}

/// A line ends at a line break and at the end of the source.
pub open spec fn at_line_end(s: Seq<char>, p: int) -> bool {
    p >= s.len() || newline_len(s, p) > 0
}

/// Whether the characters `a`, `b` stand at `p`.
pub open spec fn has2(s: Seq<char>, p: int, a: char, b: char) -> bool {
    0 <= p && p + 2 <= s.len() && s[p] == a && s[p + 1] == b
}

/// Whether `token` stands at `p`.
pub open spec fn has_prefix(s: Seq<char>, p: int, token: Seq<char>) -> bool {
    0 <= p && p + token.len() <= s.len() && s.subrange(p, p + token.len()) == token
}

/// The number of blanks from `p` on.
pub open spec fn blank_run(s: Seq<char>, p: int) -> nat
    decreases s.len() - p,
{
    if 0 <= p < s.len() && is_blank(s[p]) {
        1 + blank_run(s, p + 1)
    } else {
        0
    }
}

/// The number of blanks and line-break characters from `p` on, below `end`.
pub open spec fn space_run(s: Seq<char>, p: int, end: int) -> nat
    decreases end - p,
{
    if 0 <= p < end <= s.len() && is_space(s[p]) {
        1 + space_run(s, p + 1, end)
    } else {
        0
    }
}

/// The number of blanks and line-break characters that end just before
/// `end`, not reaching below `start`.
pub open spec fn space_run_back(s: Seq<char>, start: int, end: int) -> nat
    decreases end - start,
{
    if 0 <= start < end <= s.len() && is_space(s[end - 1]) {
        1 + space_run_back(s, start, end - 1)
    } else {
        0
    }
}

/// The number of digits from `p` on.
pub open spec fn digit_run(s: Seq<char>, p: int) -> nat
    decreases s.len() - p,
{
    if 0 <= p < s.len() && is_digit(s[p]) {
        1 + digit_run(s, p + 1)
    } else {
        0
    }
}

/// The number of characters from `p` to the end of its line.
pub open spec fn rest_of_line(s: Seq<char>, p: int) -> nat
    decreases s.len() - p,
{
    if p < 0 || at_line_end(s, p) {
        0
    } else {
        1 + rest_of_line(s, p + 1)
    }
}

/// Where the line after the one of `p` begins.
pub open spec fn next_line(s: Seq<char>, p: int) -> int {
    let end = p + rest_of_line(s, p);
    end + newline_len(s, end)
}

/// The length of the blank line at `p`, its line break included: 0 where the
/// line at `p` holds anything but blanks, and at the end of the source.
pub open spec fn blank_line_len(s: Seq<char>, p: int) -> nat {
    let blanks = blank_run(s, p);
    if newline_len(s, p + blanks) > 0 {
        blanks + newline_len(s, p + blanks)
    } else if blanks > 0 && p + blanks >= s.len() {
        blanks
    } else {
        0
    }
}

/// A run of blanks stays inside the source.
pub proof fn lemma_blank_run_bound(s: Seq<char>, p: int)
    requires
        0 <= p <= s.len(),
    ensures
        p + blank_run(s, p) <= s.len(),
        p + blank_run(s, p) < s.len() ==> !is_blank(s[p + blank_run(s, p)]),
    decreases s.len() - p,
{
    if p < s.len() && is_blank(s[p]) {
        lemma_blank_run_bound(s, p + 1);
    }
}

/// The rest of a line stays inside the source and ends where the line does.
pub proof fn lemma_rest_of_line_bound(s: Seq<char>, p: int)
    requires
        0 <= p <= s.len(),
    ensures
        p + rest_of_line(s, p) <= s.len(),
        at_line_end(s, p + rest_of_line(s, p)),
        next_line(s, p) <= s.len(),
    decreases s.len() - p,
{
    if !at_line_end(s, p) {
        lemma_rest_of_line_bound(s, p + 1);
    }
}

/// A blank line stays inside the source.
pub proof fn lemma_blank_line_bound(s: Seq<char>, p: int)
    requires
        0 <= p <= s.len(),
    ensures
        p + blank_line_len(s, p) <= s.len(),
{
    lemma_blank_run_bound(s, p);
}

#[via_fn]
proof fn blank_lines_run_decreases(s: Seq<char>, p: int) {
    if 0 <= p < s.len() {
        lemma_blank_line_bound(s, p);
    }
}

/// The length of the blank lines from `p` on.
pub open spec fn blank_lines_run(s: Seq<char>, p: int) -> nat
    decreases s.len() - p,
    via blank_lines_run_decreases
{
    let n = blank_line_len(s, p);
    if n > 0 && 0 <= p < s.len() {
        n + blank_lines_run(s, p + n)
    } else {
        0
    }
}

/// The separator between request scripts.
pub open spec fn is_separator(s: Seq<char>, p: int) -> bool {
    0 <= p && p + 3 <= s.len() && s[p] == '#' && s[p + 1] == '#' && s[p + 2] == '#'
}

/// A line that begins with `#` and is no separator is a comment.
pub open spec fn is_comment(s: Seq<char>, p: int) -> bool {
    0 <= p < s.len() && s[p] == '#' && !is_separator(s, p)
}

/// The opening of a handler.
pub open spec fn is_handler_start(s: Seq<char>, p: int) -> bool {
    0 <= p && p + 4 <= s.len() && s[p] == '>' && s[p + 1] == ' ' && s[p + 2] == '{' && s[p + 3]
        == '%'
}

#[via_fn]
proof fn gap_run_decreases(s: Seq<char>, p: int) {
    if 0 <= p < s.len() {
        lemma_rest_of_line_bound(s, p);
    }
}

/// What may stand between two request scripts: blanks, line breaks, and lines
/// from a `#` on. The result is the number of characters of it from `p` on.
pub open spec fn gap_run(s: Seq<char>, p: int) -> nat
    decreases s.len() - p,
    via gap_run_decreases
{
    if p < 0 || p >= s.len() {
        0
    } else if is_blank(s[p]) || s[p] == '\n' {
        1 + gap_run(s, p + 1)
    } else if newline_len(s, p) == 2 {
        2 + gap_run(s, p + 2)
    } else if s[p] == '#' {
        let n = rest_of_line(s, p);
        n + gap_run(s, p + n)
    } else {
        0
    }
}

// ---------------------------------------------------------------------------
// Placeholders and the texts that hold them
// ---------------------------------------------------------------------------

/// The number of characters from `p` to the first `}}` on the line of `p`.
pub open spec fn closing_braces(s: Seq<char>, p: int) -> Option<nat>
    decreases s.len() - p,
{
    if p < 0 || at_line_end(s, p) {
        None
    } else if has2(s, p, '}', '}') {
        Some(0)
    } else {
        match closing_braces(s, p + 1) {
            Some(n) => Some(n + 1),
            None => None,
        }
    }
}

/// The length of the placeholder that begins at `p`, or 0 where none does.
/// A placeholder is `{{`, a text with no `}}` and no line break in it that is
/// not blank all through, and `}}`.
pub open spec fn placeholder_len(s: Seq<char>, p: int) -> nat {
    if has2(s, p, '{', '{') {
        match closing_braces(s, p + 2) {
            Some(n) => if space_run(s, p + 2, p + 2 + n) < n {
                n + 4
            } else {
                0
            },
            None => 0,
        }
    } else {
        0
    }
}

/// The script of the placeholder `[start, end)`: what stands between the
/// braces, without the blanks around it.
pub open spec fn placeholder_script(s: Seq<char>, placeholder: Span) -> Span {
    let close = placeholder.end - 2;
    let start = placeholder.start + 2 + space_run(s, placeholder.start + 2, close);
    Span { start, end: close - space_run_back(s, start, close) }
}

/// Where `}}` is found on the line, it stands inside the source.
pub proof fn lemma_closing_braces_bound(s: Seq<char>, p: int)
    requires
        0 <= p <= s.len(),
    ensures
        closing_braces(s, p) matches Some(n) ==> has2(s, p + n, '}', '}'),
    decreases s.len() - p,
{
    if !at_line_end(s, p) && !has2(s, p, '}', '}') {
        lemma_closing_braces_bound(s, p + 1);
    }
}

/// A placeholder stays inside the source and is at least five characters
/// long.
pub proof fn lemma_placeholder_bound(s: Seq<char>, p: int)
    requires
        0 <= p <= s.len(),
    ensures
        p + placeholder_len(s, p) <= s.len(),
        placeholder_len(s, p) == 0 || placeholder_len(s, p) >= 5,
{
    if has2(s, p, '{', '{') {
        lemma_closing_braces_bound(s, p + 2);
    }
}

/// Whether a body that has reached `p` ends there: at the end of the source,
/// or at a line break after which, blank lines apart, the source ends or a
/// separator or a handler begins.
pub open spec fn body_ends(s: Seq<char>, p: int) -> bool {
    p >= s.len() || (newline_len(s, p) > 0 && {
        let q = p + newline_len(s, p) + blank_lines_run(s, p + newline_len(s, p));
        q >= s.len() || is_separator(s, q) || is_handler_start(s, q)
    })
}

/// Whether a text of the given kind that has reached `p` ends there.
pub open spec fn value_ends(s: Seq<char>, p: int, kind: ValueKind) -> bool {
    match kind {
        ValueKind::Target => at_line_end(s, p) || is_blank(s[p]),
        ValueKind::HeaderValue => at_line_end(s, p),
        ValueKind::Body => body_ends(s, p),
    }
}

#[via_fn]
proof fn value_run_decreases(s: Seq<char>, p: int, kind: ValueKind) {
    if 0 <= p < s.len() {
        lemma_placeholder_bound(s, p);
    }
}

/// The length of the text of the given kind that begins at `p`. A placeholder
/// is taken whole, so a blank inside one does not end a target.
pub open spec fn value_run(s: Seq<char>, p: int, kind: ValueKind) -> nat
    decreases s.len() - p,
    via value_run_decreases
{
    if p < 0 || p >= s.len() || value_ends(s, p, kind) {
        0
    } else {
        let n = placeholder_len(s, p);
        if n > 0 {
            n + value_run(s, p + n, kind)
        } else {
            1 + value_run(s, p + 1, kind)
        }
    }
}

/// A text stays inside the source, and ends where a text of its kind does.
pub proof fn lemma_value_run_bound(s: Seq<char>, p: int, kind: ValueKind)
    requires
        0 <= p <= s.len(),
    ensures
        p + value_run(s, p, kind) <= s.len(),
        p + value_run(s, p, kind) == s.len() || value_ends(s, p + value_run(s, p, kind), kind),
    decreases s.len() - p,
{
    if p < s.len() && !value_ends(s, p, kind) {
        lemma_placeholder_bound(s, p);
        let n = placeholder_len(s, p);
        if n > 0 {
            lemma_value_run_bound(s, p + n, kind);
        } else {
            lemma_value_run_bound(s, p + 1, kind);
        }
    }
}

/// The placeholders of the text `[p, end)`, from left to right. One that
/// would reach beyond `end` is none.
pub open spec fn placeholders(s: Seq<char>, p: int, end: int) -> Seq<Span>
    decreases end - p,
{
    if p < 0 || p >= end {
        Seq::empty()
    } else {
        let n = placeholder_len(s, p);
        if n > 0 && p + n <= end {
            seq![Span { start: p, end: p + n }] + placeholders(s, p + n, end)
        } else {
            placeholders(s, p + 1, end)
        }
    }
}

// ---------------------------------------------------------------------------
// The request line
// ---------------------------------------------------------------------------

/// The token of a method.
pub open spec fn method_token(method: MethodKind) -> Seq<char> {
    match method {
        MethodKind::Get => "GET"@,
        MethodKind::Post => "POST"@,
        MethodKind::Delete => "DELETE"@,
        MethodKind::Put => "PUT"@,
        MethodKind::Patch => "PATCH"@,
        MethodKind::Options => "OPTIONS"@,
    }
}

/// The length of a method's token.
pub open spec fn method_len(method: MethodKind) -> nat {
    method_token(method).len()
}

impl MethodKind {
    /// The length of the method's token.
    pub open spec fn len(self) -> nat {
        method_len(self)
    }
}

/// Whether the token of `method` stands at `p` with a blank behind it.
pub open spec fn has_method(s: Seq<char>, p: int, method: MethodKind) -> bool {
    &&& has_prefix(s, p, method_token(method))
    &&& p + method_len(method) < s.len()
    &&& is_blank(s[p + method_len(method)])
}

/// The method whose token stands at `p`, if one does. The tokens are exact:
/// upper case, and no other word is a method.
pub open spec fn method_at(s: Seq<char>, p: int) -> Option<MethodKind> {
    if has_method(s, p, MethodKind::Get) {
        Some(MethodKind::Get)
    } else if has_method(s, p, MethodKind::Post) {
        Some(MethodKind::Post)
    } else if has_method(s, p, MethodKind::Delete) {
        Some(MethodKind::Delete)
    } else if has_method(s, p, MethodKind::Put) {
        Some(MethodKind::Put)
    } else if has_method(s, p, MethodKind::Patch) {
        Some(MethodKind::Patch)
    } else if has_method(s, p, MethodKind::Options) {
        Some(MethodKind::Options)
    } else {
        None
    }
}

/// Whether `HTTP/` stands at `p`.
pub open spec fn has_version_mark(s: Seq<char>, p: int) -> bool {
    0 <= p && p + 5 <= s.len() && s[p] == 'H' && s[p + 1] == 'T' && s[p + 2] == 'T' && s[p + 3]
        == 'P' && s[p + 4] == '/'
}

/// The length of the protocol version at `p`: `HTTP/`, digits, and after a
/// dot more digits; 0 where none stands.
pub open spec fn version_len(s: Seq<char>, p: int) -> nat {
    if has_version_mark(s, p) {
        let major = digit_run(s, p + 5);
        let dot = p + 5 + major;
        if major == 0 {
            0
        } else if dot < s.len() && s[dot] == '.' && digit_run(s, dot + 1) > 0 {
            5 + major + 1 + digit_run(s, dot + 1)
        } else {
            5 + major
        }
    } else {
        0
    }
}

/// The request line at `p`: a method, blanks, a target, and before the end of
/// the line at most a protocol version.
pub open spec fn request_line(s: Seq<char>, p: int) -> Result<RequestLine, Failure> {
    match method_at(s, p) {
        None => Err(Failure { expected: Expected::Method, at: p }),
        Some(method) => {
            let target_start = p + method_len(method) + blank_run(s, p + method_len(method));
            let target_end = target_start + value_run(s, target_start, ValueKind::Target);
            let after_target = target_end + blank_run(s, target_end);
            let after_version = after_target + version_len(s, after_target);
            let end = after_version + blank_run(s, after_version);
            if target_end == target_start {
                Err(Failure { expected: Expected::Target, at: target_start })
            } else if at_line_end(s, after_target) {
                Ok(
                    RequestLine {
                        method,
                        target: Span { start: target_start, end: target_end },
                        end: after_target,
                    },
                )
            } else if after_version == after_target {
                Err(Failure { expected: Expected::Version, at: after_target })
            } else if at_line_end(s, end) {
                Ok(RequestLine { method, target: Span { start: target_start, end: target_end }, end })
            } else {
                Err(Failure { expected: Expected::Version, at: end })
            }
        },
    }
}

// ---------------------------------------------------------------------------
// Headers
// ---------------------------------------------------------------------------

/// The length of the header name at `p`: the characters before a colon, a
/// blank or the end of the line.
pub open spec fn name_run(s: Seq<char>, p: int) -> nat
    decreases s.len() - p,
{
    if p < 0 || at_line_end(s, p) || is_blank(s[p]) || s[p] == ':' {
        0
    } else {
        1 + name_run(s, p + 1)
    }
}

/// The header on the line that begins at `p`: a name, a colon, blanks, and
/// the value up to the end of the line.
pub open spec fn header_at(s: Seq<char>, p: int) -> Option<HeaderSpans> {
    let name_end = p + name_run(s, p);
    if name_run(s, p) > 0 && name_end < s.len() && s[name_end] == ':' {
        let value_start = name_end + 1 + blank_run(s, name_end + 1);
        Some(
            HeaderSpans {
                name: Span { start: p, end: name_end },
                value: Span {
                    start: value_start,
                    end: value_start + value_run(s, value_start, ValueKind::HeaderValue),
                },
            },
        )
    } else {
        None
    }
}

/// A header name stays inside the source.
pub proof fn lemma_name_run_bound(s: Seq<char>, p: int)
    requires
        0 <= p <= s.len(),
    ensures
        p + name_run(s, p) <= s.len(),
    decreases s.len() - p,
{
    if !(at_line_end(s, p) || is_blank(s[p]) || s[p] == ':') {
        lemma_name_run_bound(s, p + 1);
    }
}

/// A header lies on its line, in the order name, colon, value, and the line
/// after it begins behind `p`.
pub proof fn lemma_header_bound(s: Seq<char>, p: int)
    requires
        0 <= p <= s.len(),
    ensures
        header_at(s, p) matches Some(header) ==> {
            &&& header.name.start == p
            &&& p < header.name.end < header.value.start <= header.value.end <= s.len()
            &&& at_line_end(s, header.value.end)
            &&& header.value.end <= next_line(s, header.value.end) <= s.len()
            &&& next_line(s, header.value.end) == header.value.end + newline_len(
                s,
                header.value.end,
            )
        },
{
    if let Some(header) = header_at(s, p) {
        lemma_name_run_bound(s, p);
        lemma_blank_run_bound(s, header.name.end + 1);
        lemma_value_run_bound(s, header.value.start, ValueKind::HeaderValue);
        lemma_rest_of_line_bound(s, header.value.end);
    }
}

#[via_fn]
proof fn head_run_decreases(s: Seq<char>, p: int) {
    if 0 <= p < s.len() {
        lemma_rest_of_line_bound(s, p);
        lemma_header_bound(s, p);
    }
}

/// The length of the header lines from `p` on, comment lines among them
/// included. They end before the first line that is neither.
pub open spec fn head_run(s: Seq<char>, p: int) -> nat
    decreases s.len() - p,
    via head_run_decreases
{
    if p < 0 || p >= s.len() {
        0
    } else if is_comment(s, p) {
        let next = next_line(s, p);
        (next - p) as nat + head_run(s, next)
    } else {
        match header_at(s, p) {
            Some(header) => {
                let next = next_line(s, header.value.end);
                (next - p) as nat + head_run(s, next)
            },
            None => 0,
        }
    }
}

#[via_fn]
proof fn head_headers_decreases(s: Seq<char>, p: int) {
    if 0 <= p < s.len() {
        lemma_rest_of_line_bound(s, p);
        lemma_header_bound(s, p);
    }
}

/// The headers among the lines from `p` on, in order.
pub open spec fn head_headers(s: Seq<char>, p: int) -> Seq<HeaderSpans>
    decreases s.len() - p,
    via head_headers_decreases
{
    if p < 0 || p >= s.len() {
        Seq::empty()
    } else if is_comment(s, p) {
        head_headers(s, next_line(s, p))
    } else {
        match header_at(s, p) {
            Some(header) => seq![header] + head_headers(s, next_line(s, header.value.end)),
            None => Seq::empty(),
        }
    }
}

// ---------------------------------------------------------------------------
// Body, handler, request script, file
// ---------------------------------------------------------------------------

/// Where the lines behind `p` begin again once the line break at `p`, if
/// one stands there, and the blank lines after it are passed.
pub open spec fn past_blank_lines(s: Seq<char>, p: int) -> int {
    p + newline_len(s, p) + blank_lines_run(s, p + newline_len(s, p))
}

/// The body behind the header lines that end at `head_end`: it needs a blank
/// line before it, begins with the first line that is not blank, and is no
/// separator and no handler.
pub open spec fn body_at(s: Seq<char>, head_end: int) -> Option<Span> {
    let start = head_end + blank_lines_run(s, head_end);
    if start > head_end && start < s.len() && !is_separator(s, start) && !is_handler_start(
        s,
        start,
    ) {
        Some(Span { start, end: start + value_run(s, start, ValueKind::Body) })
    } else {
        None
    }
}

/// The number of characters from `p` to the first `%}`.
pub open spec fn closing_mark(s: Seq<char>, p: int) -> Option<nat>
    decreases s.len() - p,
{
    if p < 0 || p >= s.len() {
        None
    } else if has2(s, p, '%', '}') {
        Some(0)
    } else {
        match closing_mark(s, p + 1) {
            Some(n) => Some(n + 1),
            None => None,
        }
    }
}

/// The handler that begins at `p`: `> {%`, the script, and the first `%}`
/// behind it. The script is taken without the blanks and line breaks around
/// it.
pub open spec fn handler_at(s: Seq<char>, p: int) -> Result<HandlerSpans, Failure> {
    if !is_handler_start(s, p) {
        Err(Failure { expected: Expected::HandlerStart, at: p })
    } else {
        match closing_mark(s, p + 4) {
            None => Err(Failure { expected: Expected::HandlerEnd, at: p }),
            Some(n) => {
                let close = p + 4 + n;
                let start = p + 4 + space_run(s, p + 4, close);
                Ok(
                    HandlerSpans {
                        outer: Span { start: p, end: close + 2 },
                        script: Span { start, end: close - space_run_back(s, start, close) },
                    },
                )
            },
        }
    }
}

/// The length of the line of blanks at `p`, its line break included: a line
/// that holds spaces or tabs and nothing else. An empty line is none, and
/// gives 0.
pub open spec fn line_of_blanks_len(s: Seq<char>, p: int) -> nat {
    let blanks = blank_run(s, p);
    if blanks > 0 && at_line_end(s, p + blanks) {
        blanks + newline_len(s, p + blanks)
    } else {
        0
    }
}

#[via_fn]
proof fn lines_of_blanks_run_decreases(s: Seq<char>, p: int) {
    if 0 <= p < s.len() {
        lemma_blank_run_bound(s, p);
    }
}

/// The length of the lines of blanks from `p` on.
pub open spec fn lines_of_blanks_run(s: Seq<char>, p: int) -> nat
    decreases s.len() - p,
    via lines_of_blanks_run_decreases
{
    let n = line_of_blanks_len(s, p);
    if n > 0 && 0 <= p < s.len() {
        n + lines_of_blanks_run(s, p + n)
    } else {
        0
    }
}

/// Lines of blanks stay inside the source.
pub proof fn lemma_lines_of_blanks_bound(s: Seq<char>, p: int)
    requires
        0 <= p <= s.len(),
    ensures
        p + lines_of_blanks_run(s, p) <= s.len(),
    decreases s.len() - p,
{
    lemma_blank_run_bound(s, p);
    if line_of_blanks_len(s, p) > 0 && p < s.len() {
        lemma_lines_of_blanks_bound(s, p + line_of_blanks_len(s, p));
    }
}

/// The request that begins at `p`: request line, header lines and body.
/// Its `end` is the end of the request, and it has no handler. A request
/// with a body ends with the body. One without ends behind its header
/// lines, and takes with it the lines of blanks that follow them directly;
/// an empty line ends it.
pub open spec fn request_at(s: Seq<char>, p: int) -> Result<ScriptSpans, Failure> {
    match request_line(s, p) {
        Err(failure) => Err(failure),
        Ok(line) => {
            let head_start = line.end + newline_len(s, line.end);
            let head_end = head_start + head_run(s, head_start);
            let body = body_at(s, head_end);
            let request_end = match body {
                Some(body) => body.end,
                None => head_end + lines_of_blanks_run(s, head_end),
            };
            Ok(
                ScriptSpans {
                    start: p,
                    method: line.method,
                    target: line.target,
                    headers: head_headers(s, head_start),
                    body,
                    handler: None,
                    request_end,
                    end: request_end,
                },
            )
        },
    }
}

/// The request script that begins at `p`: a request, and behind it, blank
/// lines apart, a handler where one begins.
pub open spec fn script_at(s: Seq<char>, p: int) -> Result<ScriptSpans, Failure> {
    match request_at(s, p) {
        Err(failure) => Err(failure),
        Ok(request) => {
            let handler_start = past_blank_lines(s, request.request_end);
            if is_handler_start(s, handler_start) {
                match handler_at(s, handler_start) {
                    Err(failure) => Err(failure),
                    Ok(handler) => Ok(
                        ScriptSpans { handler: Some(handler), end: handler.outer.end, ..request },
                    ),
                }
            } else {
                Ok(request)
            }
        },
    }
}

/// The header lines stay inside the source.
pub proof fn lemma_head_run_bound(s: Seq<char>, p: int)
    requires
        0 <= p <= s.len(),
    ensures
        p + head_run(s, p) <= s.len(),
    decreases s.len() - p,
{
    if p < s.len() {
        lemma_rest_of_line_bound(s, p);
        lemma_header_bound(s, p);
        if is_comment(s, p) {
            lemma_head_run_bound(s, next_line(s, p));
        } else if let Some(header) = header_at(s, p) {
            lemma_head_run_bound(s, next_line(s, header.value.end));
        }
    }
}

/// Blank lines stay inside the source.
pub proof fn lemma_blank_lines_bound(s: Seq<char>, p: int)
    requires
        0 <= p <= s.len(),
    ensures
        p + blank_lines_run(s, p) <= s.len(),
        past_blank_lines(s, p) <= s.len(),
    decreases s.len() - p,
{
    lemma_blank_lines_run_bound(s, p);
    lemma_blank_lines_run_bound(s, p + newline_len(s, p));
}

/// Blank lines stay inside the source.
pub proof fn lemma_blank_lines_run_bound(s: Seq<char>, p: int)
    requires
        0 <= p <= s.len(),
    ensures
        p + blank_lines_run(s, p) <= s.len(),
    decreases s.len() - p,
{
    lemma_blank_line_bound(s, p);
    if blank_line_len(s, p) > 0 && p < s.len() {
        lemma_blank_lines_run_bound(s, p + blank_line_len(s, p));
    }
}

/// Where `%}` is found, it stands inside the source.
pub proof fn lemma_closing_mark_bound(s: Seq<char>, p: int)
    requires
        0 <= p <= s.len(),
    ensures
        closing_mark(s, p) matches Some(n) ==> has2(s, p + n, '%', '}'),
    decreases s.len() - p,
{
    if p < s.len() && !has2(s, p, '%', '}') {
        lemma_closing_mark_bound(s, p + 1);
    }
}

/// A request line lies inside the source, in the order method, target, end.
pub proof fn lemma_request_line_bound(s: Seq<char>, p: int)
    requires
        0 <= p <= s.len(),
    ensures
        request_line(s, p) matches Ok(line) ==> {
            &&& p + method_len(line.method) < line.target.start < line.target.end <= line.end
                <= s.len()
            &&& at_line_end(s, line.end)
        },
        request_line(s, p) matches Err(failure) ==> p <= failure.at <= s.len(),
{
    if let Some(method) = method_at(s, p) {
        let target_start = p + method_len(method) + blank_run(s, p + method_len(method));
        lemma_blank_run_bound(s, p + method_len(method));
        lemma_value_run_bound(s, target_start, ValueKind::Target);
        let target_end = target_start + value_run(s, target_start, ValueKind::Target);
        lemma_blank_run_bound(s, target_end);
        let after_target = target_end + blank_run(s, target_end);
        lemma_version_bound(s, after_target);
        let after_version = after_target + version_len(s, after_target);
        lemma_blank_run_bound(s, after_version);
    }
}

/// Digits stay inside the source.
pub proof fn lemma_digit_run_bound(s: Seq<char>, p: int)
    requires
        0 <= p <= s.len(),
    ensures
        p + digit_run(s, p) <= s.len(),
    decreases s.len() - p,
{
    if p < s.len() && is_digit(s[p]) {
        lemma_digit_run_bound(s, p + 1);
    }
}

/// A protocol version stays inside the source.
pub proof fn lemma_version_bound(s: Seq<char>, p: int)
    requires
        0 <= p <= s.len(),
    ensures
        p + version_len(s, p) <= s.len(),
{
    if has_version_mark(s, p) {
        lemma_digit_run_bound(s, p + 5);
        let dot = p + 5 + digit_run(s, p + 5);
        if dot < s.len() {
            lemma_digit_run_bound(s, dot + 1);
        }
    }
}

/// A handler lies inside the source, its script inside the handler.
pub proof fn lemma_handler_bound(s: Seq<char>, p: int)
    requires
        0 <= p <= s.len(),
    ensures
        handler_at(s, p) matches Ok(handler) ==> {
            &&& handler.outer.start == p
            &&& p + 4 <= handler.script.start <= handler.script.end <= handler.outer.end - 2
            &&& handler.outer.end <= s.len()
        },
{
    if is_handler_start(s, p) {
        lemma_closing_mark_bound(s, p + 4);
        if let Some(n) = closing_mark(s, p + 4) {
            let close = p + 4 + n;
            lemma_space_run_bound(s, p + 4, close);
            lemma_space_run_back_bound(s, p + 4 + space_run(s, p + 4, close), close);
        }
    }
}

/// A run of spaces below `end` stays below `end`.
pub proof fn lemma_space_run_bound(s: Seq<char>, p: int, end: int)
    requires
        0 <= p <= end <= s.len(),
    ensures
        p + space_run(s, p, end) <= end,
        p + space_run(s, p, end) < end ==> !is_space(s[p + space_run(s, p, end)]),
    decreases end - p,
{
    if p < end && is_space(s[p]) {
        lemma_space_run_bound(s, p + 1, end);
    }
}

/// A run of spaces back from `end` stays above `start`.
pub proof fn lemma_space_run_back_bound(s: Seq<char>, start: int, end: int)
    requires
        0 <= start <= end <= s.len(),
    ensures
        start <= end - space_run_back(s, start, end),
        start < end - space_run_back(s, start, end) ==> !is_space(
            s[end - space_run_back(s, start, end) - 1],
        ),
    decreases end - start,
{
    if start < end && is_space(s[end - 1]) {
        lemma_space_run_back_bound(s, start, end - 1);
    }
}

/// A request lies inside the source and is not empty; its parts stand in
/// the order in which they are written.
pub proof fn lemma_request_bound(s: Seq<char>, p: int)
    requires
        0 <= p <= s.len(),
    ensures
        request_at(s, p) matches Ok(request) ==> {
            &&& request.start == p
            &&& p + request.method.len() < request.target.start < request.target.end
                <= request.request_end <= s.len()
            &&& request.body matches Some(body) ==> request.target.end < body.start < body.end
                == request.request_end
            &&& request.handler is None
            &&& request.end == request.request_end
        },
        request_at(s, p) matches Err(failure) ==> p <= failure.at <= s.len(),
{
    lemma_request_line_bound(s, p);
    if let Ok(line) = request_line(s, p) {
        let head_start = line.end + newline_len(s, line.end);
        lemma_head_run_bound(s, head_start);
        let head_end = head_start + head_run(s, head_start);
        lemma_blank_lines_bound(s, head_end);
        lemma_lines_of_blanks_bound(s, head_end);
        if let Some(body) = body_at(s, head_end) {
            lemma_value_run_bound(s, body.start, ValueKind::Body);
            assert(!value_ends(s, body.start, ValueKind::Body)) by {
                lemma_blank_lines_end(s, head_end);
            }
            lemma_placeholder_bound(s, body.start);
        }
    }
}

/// A request script lies inside the source and is not empty; its parts
/// stand in the order in which they are written.
pub proof fn lemma_script_bound(s: Seq<char>, p: int)
    requires
        0 <= p <= s.len(),
    ensures
        script_at(s, p) matches Ok(script) ==> {
            &&& script.start == p
            &&& p + script.method.len() < script.target.start < script.target.end
                <= script.request_end <= script.end <= s.len()
            &&& script.body matches Some(body) ==> script.target.end < body.start < body.end
                == script.request_end
            &&& script.handler matches Some(handler) ==> script.request_end
                <= handler.outer.start && handler.outer.end == script.end
            &&& script.handler is None ==> script.end == script.request_end
        },
        script_at(s, p) matches Err(failure) ==> p <= failure.at <= s.len(),
{
    lemma_request_bound(s, p);
    if let Ok(request) = request_at(s, p) {
        lemma_blank_lines_bound(s, request.request_end);
        lemma_handler_bound(s, past_blank_lines(s, request.request_end));
    }
}

/// Behind a run of blank lines no blank line follows, so no line break
/// stands there.
pub proof fn lemma_blank_lines_end(s: Seq<char>, p: int)
    requires
        0 <= p <= s.len(),
    ensures
        p + blank_lines_run(s, p) < s.len() ==> blank_line_len(s, p + blank_lines_run(s, p)) == 0
            && newline_len(s, p + blank_lines_run(s, p)) == 0,
    decreases s.len() - p,
{
    lemma_blank_line_bound(s, p);
    if blank_line_len(s, p) > 0 && p < s.len() {
        lemma_blank_lines_end(s, p + blank_line_len(s, p));
    }
}

#[via_fn]
proof fn scripts_from_decreases(s: Seq<char>, p: int) {
    if 0 <= p {
        lemma_gap_run_bound(s, p);
        if p + gap_run(s, p) < s.len() {
            lemma_script_bound(s, p + gap_run(s, p));
        }
    }
}

/// What stands between two scripts stays inside the source.
pub proof fn lemma_gap_run_bound(s: Seq<char>, p: int)
    requires
        0 <= p,
    ensures
        p + gap_run(s, p) <= s.len() || gap_run(s, p) == 0,
    decreases s.len() - p,
{
    if p < s.len() {
        if is_blank(s[p]) || s[p] == '\n' {
            lemma_gap_run_bound(s, p + 1);
        } else if newline_len(s, p) == 2 {
            lemma_gap_run_bound(s, p + 2);
        } else if s[p] == '#' {
            lemma_rest_of_line_bound(s, p);
            lemma_gap_run_bound(s, p + rest_of_line(s, p));
        }
    }
}

/// The request scripts of the source from `p` on, or the first place where
/// it does not follow the grammar.
pub open spec fn scripts_from(s: Seq<char>, p: int) -> Result<Seq<ScriptSpans>, Failure>
    decreases s.len() - p,
    via scripts_from_decreases
{
    let start = p + gap_run(s, p);
    if p < 0 || start >= s.len() {
        Ok(Seq::empty())
    } else {
        match script_at(s, start) {
            Err(failure) => Err(failure),
            Ok(script) => match scripts_from(s, script.end) {
                Err(failure) => Err(failure),
                Ok(rest) => Ok(seq![script] + rest),
            },
        }
    }
}

// ---------------------------------------------------------------------------
// Lines and columns
// ---------------------------------------------------------------------------

/// The line of position `p`: one more than the line feeds before it.
pub open spec fn line_of(s: Seq<char>, p: int) -> nat
    decreases p,
{
    if p <= 0 || p > s.len() {
        1
    } else if s[p - 1] == '\n' {
        line_of(s, p - 1) + 1
    } else {
        line_of(s, p - 1)
    }
}

/// The column of position `p`: one more than the characters between the
/// last line feed before it and `p`.
pub open spec fn col_of(s: Seq<char>, p: int) -> nat
    decreases p,
{
    if p <= 0 || p > s.len() || s[p - 1] == '\n' {
        1
    } else {
        col_of(s, p - 1) + 1
    }
}

/// Line and column are at most one more than the position.
pub proof fn lemma_line_col_bound(s: Seq<char>, p: int)
    ensures
        1 <= line_of(s, p) <= (if p <= 0 { 1 } else { p + 1 }),
        1 <= col_of(s, p) <= (if p <= 0 { 1 } else { p + 1 }),
    decreases p,
{
    if 0 < p <= s.len() {
        lemma_line_col_bound(s, p - 1);
    }
}

/// Lines do not go down as the position goes up.
pub proof fn lemma_line_monotonic(s: Seq<char>, p: int, q: int)
    requires
        0 <= p <= q <= s.len(),
    ensures
        line_of(s, p) <= line_of(s, q),
    decreases q - p,
{
    if p < q {
        lemma_line_monotonic(s, p, q - 1);
    }
}

} // verus!
