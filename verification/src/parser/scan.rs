//! The executable counterparts of the grammar's functions: each walks the
//! characters and returns the position that the grammar names.

use crate::parser::grammar;
use crate::parser::grammar::{Expected, MethodKind, ValueKind};
use crate::text::to_chars;
use vstd::prelude::*;

verus! {

pub fn is_blank(c: char) -> (r: bool)
    ensures
        r == grammar::is_blank(c),
{
    c == ' ' || c == '\t'
}

pub fn is_space(c: char) -> (r: bool)
    ensures
        r == grammar::is_space(c),
{
    c == ' ' || c == '\t' || c == '\n' || c == '\r'
}

pub fn is_digit(c: char) -> (r: bool)
    ensures
        r == grammar::is_digit(c),
{
    '0' <= c && c <= '9'
}

pub fn newline_len(chars: &Vec<char>, p: usize) -> (n: usize)
    ensures
        n == grammar::newline_len(chars@, p as int),
        n <= 2,
        p + n <= chars.len() || n == 0,
{
    if p < chars.len() && chars[p] == '\n' {
        1
    } else if p < chars.len() && chars.len() - p > 1 && chars[p] == '\r' && chars[p + 1] == '\n' {
        2
    } else {
        0
    }
}

pub fn at_line_end(chars: &Vec<char>, p: usize) -> (r: bool)
    ensures
        r == grammar::at_line_end(chars@, p as int),
{
    p >= chars.len() || newline_len(chars, p) > 0
}

pub fn has2(chars: &Vec<char>, p: usize, a: char, b: char) -> (r: bool)
    ensures
        r == grammar::has2(chars@, p as int, a, b),
{
    p < chars.len() && chars.len() - p >= 2 && chars[p] == a && chars[p + 1] == b
}

/// Whether `token` stands at `p`.
pub fn has_prefix(chars: &Vec<char>, p: usize, token: &str) -> (r: bool)
    ensures
        r == grammar::has_prefix(chars@, p as int, token@),
{
    let word = to_chars(token);
    if p > chars.len() || chars.len() - p < word.len() {
        return false;
    }
    let mut i: usize = 0;
    while i < word.len()
        invariant
            i <= word.len(),
            word@ == token@,
            p + word.len() <= chars.len(),
            forall|k: int| 0 <= k < i ==> chars@[p + k] == word@[k],
        decreases word.len() - i,
    {
        if chars[p + i] != word[i] {
            proof {
                let whole = chars@.subrange(p as int, p + token@.len());
                assert(whole[i as int] == chars@[p + i]);
                assert(whole != token@);
            }
            return false;
        }
        i += 1;
    }
    assert(chars@.subrange(p as int, p + token@.len()) =~= token@);
    true
}

pub fn skip_blanks(chars: &Vec<char>, p: usize) -> (q: usize)
    requires
        p <= chars.len(),
    ensures
        q == p + grammar::blank_run(chars@, p as int),
        q <= chars.len(),
{
    let mut q = p;
    while q < chars.len() && is_blank(chars[q])
        invariant
            p <= q <= chars.len(),
            q - p + grammar::blank_run(chars@, q as int) == grammar::blank_run(chars@, p as int),
        decreases chars.len() - q,
    {
        q += 1;
    }
    q
}

pub fn skip_spaces(chars: &Vec<char>, p: usize, end: usize) -> (q: usize)
    requires
        p <= end <= chars.len(),
    ensures
        q == p + grammar::space_run(chars@, p as int, end as int),
        p <= q <= end,
{
    let mut q = p;
    while q < end && is_space(chars[q])
        invariant
            p <= q <= end <= chars.len(),
            q - p + grammar::space_run(chars@, q as int, end as int) == grammar::space_run(
                chars@,
                p as int,
                end as int,
            ),
        decreases end - q,
    {
        q += 1;
    }
    q
}

pub fn skip_spaces_back(chars: &Vec<char>, start: usize, end: usize) -> (q: usize)
    requires
        start <= end <= chars.len(),
    ensures
        q == end - grammar::space_run_back(chars@, start as int, end as int),
        start <= q <= end,
{
    let mut q = end;
    while q > start && is_space(chars[q - 1])
        invariant
            start <= q <= end <= chars.len(),
            end - q + grammar::space_run_back(chars@, start as int, q as int)
                == grammar::space_run_back(chars@, start as int, end as int),
        decreases q - start,
    {
        q -= 1;
    }
    q
}

pub fn skip_digits(chars: &Vec<char>, p: usize) -> (q: usize)
    requires
        p <= chars.len(),
    ensures
        q == p + grammar::digit_run(chars@, p as int),
        q <= chars.len(),
{
    let mut q = p;
    while q < chars.len() && is_digit(chars[q])
        invariant
            p <= q <= chars.len(),
            q - p + grammar::digit_run(chars@, q as int) == grammar::digit_run(chars@, p as int),
        decreases chars.len() - q,
    {
        q += 1;
    }
    q
}

pub fn line_end(chars: &Vec<char>, p: usize) -> (q: usize)
    requires
        p <= chars.len(),
    ensures
        q == p + grammar::rest_of_line(chars@, p as int),
        q <= chars.len(),
        grammar::at_line_end(chars@, q as int),
{
    let mut q = p;
    while !at_line_end(chars, q)
        invariant
            p <= q <= chars.len(),
            q - p + grammar::rest_of_line(chars@, q as int) == grammar::rest_of_line(
                chars@,
                p as int,
            ),
        decreases chars.len() - q,
    {
        assert(q < chars.len());
        q += 1;
    }
    q
}

pub fn next_line(chars: &Vec<char>, p: usize) -> (q: usize)
    requires
        p <= chars.len(),
    ensures
        q == grammar::next_line(chars@, p as int),
        p <= q <= chars.len(),
{
    let end = line_end(chars, p);
    end + newline_len(chars, end)
}

pub fn blank_line_end(chars: &Vec<char>, p: usize) -> (q: usize)
    requires
        p <= chars.len(),
    ensures
        q == p + grammar::blank_line_len(chars@, p as int),
        p <= q <= chars.len(),
{
    let blanks_end = skip_blanks(chars, p);
    let n = newline_len(chars, blanks_end);
    if n > 0 {
        blanks_end + n
    } else if blanks_end > p && blanks_end >= chars.len() {
        blanks_end
    } else {
        p
    }
}

pub fn line_of_blanks_end(chars: &Vec<char>, p: usize) -> (q: usize)
    requires
        p <= chars.len(),
    ensures
        q == p + grammar::line_of_blanks_len(chars@, p as int),
        p <= q <= chars.len(),
{
    let blanks_end = skip_blanks(chars, p);
    if blanks_end > p && at_line_end(chars, blanks_end) {
        blanks_end + newline_len(chars, blanks_end)
    } else {
        p
    }
}

pub fn skip_lines_of_blanks(chars: &Vec<char>, p: usize) -> (q: usize)
    requires
        p <= chars.len(),
    ensures
        q == p + grammar::lines_of_blanks_run(chars@, p as int),
        p <= q <= chars.len(),
{
    let mut q = p;
    loop
        invariant
            p <= q <= chars.len(),
            q - p + grammar::lines_of_blanks_run(chars@, q as int) == grammar::lines_of_blanks_run(
                chars@,
                p as int,
            ),
        ensures
            p <= q <= chars.len(),
            q == p + grammar::lines_of_blanks_run(chars@, p as int),
        decreases chars.len() - q,
    {
        let next = line_of_blanks_end(chars, q);
        if next == q || q >= chars.len() {
            break;
        }
        q = next;
    }
    q
}

pub fn skip_blank_lines(chars: &Vec<char>, p: usize) -> (q: usize)
    requires
        p <= chars.len(),
    ensures
        q == p + grammar::blank_lines_run(chars@, p as int),
        p <= q <= chars.len(),
{
    let mut q = p;
    loop
        invariant
            p <= q <= chars.len(),
            q - p + grammar::blank_lines_run(chars@, q as int) == grammar::blank_lines_run(
                chars@,
                p as int,
            ),
        ensures
            p <= q <= chars.len(),
            q == p + grammar::blank_lines_run(chars@, p as int),
        decreases chars.len() - q,
    {
        let next = blank_line_end(chars, q);
        if next == q || q >= chars.len() {
            break;
        }
        q = next;
    }
    q
}

pub fn past_blank_lines(chars: &Vec<char>, p: usize) -> (q: usize)
    requires
        p <= chars.len(),
    ensures
        q == grammar::past_blank_lines(chars@, p as int),
        p <= q <= chars.len(),
{
    let n = newline_len(chars, p);
    skip_blank_lines(chars, p + n)
}

pub fn is_separator(chars: &Vec<char>, p: usize) -> (r: bool)
    ensures
        r == grammar::is_separator(chars@, p as int),
{
    p < chars.len() && chars.len() - p >= 3 && chars[p] == '#' && chars[p + 1] == '#' && chars[p
        + 2] == '#'
}

pub fn is_comment(chars: &Vec<char>, p: usize) -> (r: bool)
    ensures
        r == grammar::is_comment(chars@, p as int),
{
    p < chars.len() && chars[p] == '#' && !is_separator(chars, p)
}

pub fn is_handler_start(chars: &Vec<char>, p: usize) -> (r: bool)
    ensures
        r == grammar::is_handler_start(chars@, p as int),
{
    p < chars.len() && chars.len() - p >= 4 && chars[p] == '>' && chars[p + 1] == ' ' && chars[p
        + 2] == '{' && chars[p + 3] == '%'
}

pub fn skip_gap(chars: &Vec<char>, p: usize) -> (q: usize)
    requires
        p <= chars.len(),
    ensures
        q == p + grammar::gap_run(chars@, p as int),
        p <= q <= chars.len(),
{
    let mut q = p;
    loop
        invariant
            p <= q <= chars.len(),
            q - p + grammar::gap_run(chars@, q as int) == grammar::gap_run(chars@, p as int),
        ensures
            p <= q <= chars.len(),
            q == p + grammar::gap_run(chars@, p as int),
        decreases chars.len() - q,
    {
        if q >= chars.len() {
            break;
        }
        let c = chars[q];
        if is_blank(c) || c == '\n' {
            q += 1;
        } else if newline_len(chars, q) == 2 {
            q += 2;
        } else if c == '#' {
            q = line_end(chars, q);
        } else {
            break;
        }
    }
    q
}

/// Where the first `}}` on the line of `p` stands, at or behind `p`.
pub fn closing_braces(chars: &Vec<char>, p: usize) -> (found: Option<usize>)
    requires
        p <= chars.len(),
    ensures
        match grammar::closing_braces(chars@, p as int) {
            Some(n) => found == Some((p + n) as usize) && p + n + 2 <= chars.len(),
            None => found is None,
        },
{
    let mut q = p;
    loop
        invariant
            p <= q <= chars.len(),
            match grammar::closing_braces(chars@, p as int) {
                Some(n) => grammar::closing_braces(chars@, q as int) == Some((n - (q - p)) as nat)
                    && n >= q - p,
                None => grammar::closing_braces(chars@, q as int) is None,
            },
        decreases chars.len() - q,
    {
        if at_line_end(chars, q) {
            return None;
        }
        if has2(chars, q, '}', '}') {
            return Some(q);
        }
        assert(q < chars.len());
        q += 1;
    }
}

/// Where the placeholder that begins at `p` ends, or `p` where none begins.
pub fn placeholder_end(chars: &Vec<char>, p: usize) -> (q: usize)
    requires
        p <= chars.len(),
    ensures
        q == p + grammar::placeholder_len(chars@, p as int),
        p <= q <= chars.len(),
{
    if !has2(chars, p, '{', '{') {
        return p;
    }
    proof {
        grammar::lemma_closing_braces_bound(chars@, p + 2);
    }
    match closing_braces(chars, p + 2) {
        Some(close) => {
            if skip_spaces(chars, p + 2, close) < close {
                close + 2
            } else {
                p
            }
        },
        None => p,
    }
}

pub fn body_ends(chars: &Vec<char>, p: usize) -> (r: bool)
    requires
        p <= chars.len(),
    ensures
        r == grammar::body_ends(chars@, p as int),
{
    if p >= chars.len() {
        return true;
    }
    if newline_len(chars, p) == 0 {
        return false;
    }
    let q = past_blank_lines(chars, p);
    q >= chars.len() || is_separator(chars, q) || is_handler_start(chars, q)
}

pub fn value_ends(chars: &Vec<char>, p: usize, kind: ValueKind) -> (r: bool)
    requires
        p < chars.len(),
    ensures
        r == grammar::value_ends(chars@, p as int, kind),
{
    match kind {
        ValueKind::Target => at_line_end(chars, p) || is_blank(chars[p]),
        ValueKind::HeaderValue => at_line_end(chars, p),
        ValueKind::Body => body_ends(chars, p),
    }
}

/// Where the text of the given kind that begins at `p` ends.
pub fn value_end(chars: &Vec<char>, p: usize, kind: ValueKind) -> (q: usize)
    requires
        p <= chars.len(),
    ensures
        q == p + grammar::value_run(chars@, p as int, kind),
        p <= q <= chars.len(),
{
    let mut q = p;
    loop
        invariant
            p <= q <= chars.len(),
            q - p + grammar::value_run(chars@, q as int, kind) == grammar::value_run(
                chars@,
                p as int,
                kind,
            ),
        ensures
            p <= q <= chars.len(),
            q == p + grammar::value_run(chars@, p as int, kind),
        decreases chars.len() - q,
    {
        if q >= chars.len() || value_ends(chars, q, kind) {
            break;
        }
        let after = placeholder_end(chars, q);
        if after > q {
            q = after;
        } else {
            q += 1;
        }
    }
    q
}

/// The method whose token stands at `p`, with the position behind the token.
pub fn method_at(chars: &Vec<char>, p: usize) -> (found: Option<(MethodKind, usize)>)
    requires
        p <= chars.len(),
    ensures
        match grammar::method_at(chars@, p as int) {
            Some(method) => found == Some((method, (p + grammar::method_len(method)) as usize))
                && p + grammar::method_len(method) < chars.len(),
            None => found is None,
        },
{
    if let Some(end) = method_end(chars, p, MethodKind::Get) {
        Some((MethodKind::Get, end))
    } else if let Some(end) = method_end(chars, p, MethodKind::Post) {
        Some((MethodKind::Post, end))
    } else if let Some(end) = method_end(chars, p, MethodKind::Delete) {
        Some((MethodKind::Delete, end))
    } else if let Some(end) = method_end(chars, p, MethodKind::Put) {
        Some((MethodKind::Put, end))
    } else if let Some(end) = method_end(chars, p, MethodKind::Patch) {
        Some((MethodKind::Patch, end))
    } else if let Some(end) = method_end(chars, p, MethodKind::Options) {
        Some((MethodKind::Options, end))
    } else {
        None
    }
}

/// The token of a method, as it is written in a request line.
pub fn method_name(method: MethodKind) -> (name: &'static str)
    ensures
        name@ == grammar::method_token(method),
{
    match method {
        MethodKind::Get => "GET",
        MethodKind::Post => "POST",
        MethodKind::Delete => "DELETE",
        MethodKind::Put => "PUT",
        MethodKind::Patch => "PATCH",
        MethodKind::Options => "OPTIONS",
    }
}

/// Where the token of `method` ends, if it stands at `p` with a blank behind
/// it.
pub fn method_end(chars: &Vec<char>, p: usize, method: MethodKind) -> (end: Option<usize>)
    requires
        p <= chars.len(),
    ensures
        grammar::has_method(chars@, p as int, method) ==> end == Some(
            (p + grammar::method_len(method)) as usize,
        ) && p + grammar::method_len(method) < chars.len(),
        !grammar::has_method(chars@, p as int, method) ==> end is None,
{
    let name = method_name(method);
    if !has_prefix(chars, p, name) {
        return None;
    }
    let len = name.unicode_len();
    if chars.len() - p > len && is_blank(chars[p + len]) {
        Some(p + len)
    } else {
        None
    }
}

pub fn has_version_mark(chars: &Vec<char>, p: usize) -> (r: bool)
    ensures
        r == grammar::has_version_mark(chars@, p as int),
{
    p < chars.len() && chars.len() - p >= 5 && chars[p] == 'H' && chars[p + 1] == 'T' && chars[p
        + 2] == 'T' && chars[p + 3] == 'P' && chars[p + 4] == '/'
}

/// Where the protocol version that begins at `p` ends, or `p` where none
/// begins.
pub fn version_end(chars: &Vec<char>, p: usize) -> (q: usize)
    requires
        p <= chars.len(),
    ensures
        q == p + grammar::version_len(chars@, p as int),
        p <= q <= chars.len(),
{
    if !has_version_mark(chars, p) {
        return p;
    }
    let dot = skip_digits(chars, p + 5);
    if dot == p + 5 {
        return p;
    }
    if dot < chars.len() && chars[dot] == '.' {
        let minor_end = skip_digits(chars, dot + 1);
        if minor_end > dot + 1 {
            return minor_end;
        }
    }
    dot
}

/// The parts of a request line, as positions.
pub struct RequestLineAt {
    pub method: MethodKind,
    pub method_end: usize,
    pub target_start: usize,
    pub target_end: usize,
    pub end: usize,
}

impl RequestLineAt {
    pub open spec fn matches(self, start: int, line: grammar::RequestLine) -> bool {
        &&& self.method == line.method
        &&& self.method_end == start + grammar::method_len(line.method)
        &&& self.target_start == line.target.start
        &&& self.target_end == line.target.end
        &&& self.end == line.end
    }
}

/// The request line at `p`, or what is missing and where.
pub fn request_line(chars: &Vec<char>, p: usize) -> (r: Result<RequestLineAt, (Expected, usize)>)
    requires
        p <= chars.len(),
    ensures
        match grammar::request_line(chars@, p as int) {
            Ok(line) => r is Ok && r->Ok_0.matches(p as int, line),
            Err(failure) => r == Err::<RequestLineAt, (Expected, usize)>(
                (failure.expected, failure.at as usize),
            ) && failure.at <= chars.len(),
        },
{
    proof {
        grammar::lemma_request_line_bound(chars@, p as int);
    }
    let (method, method_end) = match method_at(chars, p) {
        Some(found) => found,
        None => {
            return Err((Expected::Method, p));
        },
    };
    let target_start = skip_blanks(chars, method_end);
    let target_end = value_end(chars, target_start, ValueKind::Target);
    if target_end == target_start {
        return Err((Expected::Target, target_start));
    }
    let after_target = skip_blanks(chars, target_end);
    if at_line_end(chars, after_target) {
        return Ok(RequestLineAt { method, method_end, target_start, target_end, end: after_target });
    }
    let after_version = version_end(chars, after_target);
    if after_version == after_target {
        return Err((Expected::Version, after_target));
    }
    let end = skip_blanks(chars, after_version);
    if at_line_end(chars, end) {
        Ok(RequestLineAt { method, method_end, target_start, target_end, end })
    } else {
        Err((Expected::Version, end))
    }
}

pub fn name_end(chars: &Vec<char>, p: usize) -> (q: usize)
    requires
        p <= chars.len(),
    ensures
        q == p + grammar::name_run(chars@, p as int),
        p <= q <= chars.len(),
{
    let mut q = p;
    while !at_line_end(chars, q) && !is_blank(chars[q]) && chars[q] != ':'
        invariant
            p <= q <= chars.len(),
            q - p + grammar::name_run(chars@, q as int) == grammar::name_run(chars@, p as int),
        decreases chars.len() - q,
    {
        assert(q < chars.len());
        q += 1;
    }
    q
}

/// The parts of a header line, as positions.
pub struct HeaderAt {
    pub name_end: usize,
    pub value_start: usize,
    pub value_end: usize,
}

impl HeaderAt {
    pub open spec fn matches(self, start: int, header: grammar::HeaderSpans) -> bool {
        &&& header.name.start == start
        &&& self.name_end == header.name.end
        &&& self.value_start == header.value.start
        &&& self.value_end == header.value.end
    }
}

/// The header on the line that begins at `p`.
pub fn header_at(chars: &Vec<char>, p: usize) -> (found: Option<HeaderAt>)
    requires
        p <= chars.len(),
    ensures
        match grammar::header_at(chars@, p as int) {
            Some(header) => found is Some && found->Some_0.matches(p as int, header),
            None => found is None,
        },
{
    let name_end = name_end(chars, p);
    if name_end > p && name_end < chars.len() && chars[name_end] == ':' {
        let value_start = skip_blanks(chars, name_end + 1);
        let value_end = value_end(chars, value_start, ValueKind::HeaderValue);
        Some(HeaderAt { name_end, value_start, value_end })
    } else {
        None
    }
}

/// Where the first `%}` at or behind `p` stands.
pub fn closing_mark(chars: &Vec<char>, p: usize) -> (found: Option<usize>)
    requires
        p <= chars.len(),
    ensures
        match grammar::closing_mark(chars@, p as int) {
            Some(n) => found == Some((p + n) as usize) && p + n + 2 <= chars.len(),
            None => found is None,
        },
{
    let mut q = p;
    loop
        invariant
            p <= q <= chars.len(),
            match grammar::closing_mark(chars@, p as int) {
                Some(n) => grammar::closing_mark(chars@, q as int) == Some((n - (q - p)) as nat)
                    && n >= q - p,
                None => grammar::closing_mark(chars@, q as int) is None,
            },
        decreases chars.len() - q,
    {
        if q >= chars.len() {
            return None;
        }
        if has2(chars, q, '%', '}') {
            return Some(q);
        }
        q += 1;
    }
}

} // verus!
