//! What the parser hands out for a source, stated over the spans that the
//! grammar finds in it.

use crate::model::{
    FileView, HandlerView, HeaderView, InlineScriptView, MethodView, Position, RequestScriptView,
    RequestView, SelectionView, UnprocessedView, ValueView,
};
use crate::parser::grammar::{
    col_of, line_of, placeholder_script, placeholders, HandlerSpans, HeaderSpans, MethodKind,
    ScriptSpans, Span,
};
use vstd::prelude::*;

verus! {

/// Line and column of position `p` in the source.
pub open spec fn position_at(s: Seq<char>, p: int) -> Position {
    Position { line: line_of(s, p) as usize, col: col_of(s, p) as usize }
}

/// The span as a selection of the file.
pub open spec fn selection_of(s: Seq<char>, filename: Seq<char>, span: Span) -> SelectionView {
    SelectionView {
        filename,
        start: position_at(s, span.start),
        end: position_at(s, span.end),
    }
}

/// The characters of the span.
pub open spec fn text_of(s: Seq<char>, span: Span) -> Seq<char> {
    s.subrange(span.start, span.end)
}

/// The placeholder that stands at `placeholder`.
pub open spec fn inline_script_of(
    s: Seq<char>,
    filename: Seq<char>,
    placeholder: Span,
) -> InlineScriptView {
    InlineScriptView {
        script: text_of(s, placeholder_script(s, placeholder)),
        placeholder: text_of(s, placeholder),
        selection: selection_of(s, filename, placeholder),
    }
}

pub open spec fn inline_scripts_of(
    s: Seq<char>,
    filename: Seq<char>,
    found: Seq<Span>,
) -> Seq<InlineScriptView> {
    Seq::new(found.len(), |i: int| inline_script_of(s, filename, found[i]))
}

/// The text at `span` with the placeholders found in it. A text without any
/// is `WithoutInline`.
pub open spec fn unprocessed_of(s: Seq<char>, filename: Seq<char>, span: Span) -> UnprocessedView {
    let found = placeholders(s, span.start, span.end);
    if found.len() > 0 {
        UnprocessedView::WithInline {
            value: text_of(s, span),
            inline_scripts: inline_scripts_of(s, filename, found),
            selection: selection_of(s, filename, span),
        }
    } else {
        UnprocessedView::WithoutInline(text_of(s, span), selection_of(s, filename, span))
    }
}

pub open spec fn value_of(s: Seq<char>, filename: Seq<char>, span: Span) -> ValueView<
    UnprocessedView,
> {
    ValueView { state: unprocessed_of(s, filename, span) }
}

pub open spec fn method_of(method: MethodKind, selection: SelectionView) -> MethodView {
    match method {
        MethodKind::Get => MethodView::Get(selection),
        MethodKind::Post => MethodView::Post(selection),
        MethodKind::Delete => MethodView::Delete(selection),
        MethodKind::Put => MethodView::Put(selection),
        MethodKind::Patch => MethodView::Patch(selection),
        MethodKind::Options => MethodView::Options(selection),
    }
}

/// A header reaches from the start of its name to the end of its value.
pub open spec fn header_of(s: Seq<char>, filename: Seq<char>, header: HeaderSpans) -> HeaderView<
    UnprocessedView,
> {
    HeaderView {
        field_name: text_of(s, header.name),
        field_value: value_of(s, filename, header.value),
        selection: selection_of(
            s,
            filename,
            Span { start: header.name.start, end: header.value.end },
        ),
    }
}

pub open spec fn headers_of(s: Seq<char>, filename: Seq<char>, headers: Seq<HeaderSpans>) -> Seq<
    HeaderView<UnprocessedView>,
> {
    Seq::new(headers.len(), |i: int| header_of(s, filename, headers[i]))
}

pub open spec fn handler_of(s: Seq<char>, filename: Seq<char>, handler: HandlerSpans) -> HandlerView {
    HandlerView {
        script: text_of(s, handler.script),
        selection: selection_of(s, filename, handler.outer),
    }
}

/// The request of a script, with `end` as the end of its selection.
pub open spec fn request_of(
    s: Seq<char>,
    filename: Seq<char>,
    script: ScriptSpans,
    end: int,
) -> RequestView<UnprocessedView> {
    RequestView {
        method: method_of(
            script.method,
            selection_of(
                s,
                filename,
                Span { start: script.start, end: script.start + script.method.len() },
            ),
        ),
        target: value_of(s, filename, script.target),
        headers: headers_of(s, filename, script.headers),
        body: match script.body {
            Some(body) => Some(value_of(s, filename, body)),
            None => None,
        },
        selection: selection_of(s, filename, Span { start: script.start, end }),
    }
}

/// A request script. It reaches from its method to the end of its handler,
/// or of its request where it has none, and its request carries the same
/// selection.
pub open spec fn script_of(s: Seq<char>, filename: Seq<char>, script: ScriptSpans) -> RequestScriptView<
    UnprocessedView,
> {
    RequestScriptView {
        request: request_of(s, filename, script, script.end),
        handler: match script.handler {
            Some(handler) => Some(handler_of(s, filename, handler)),
            None => None,
        },
        selection: selection_of(s, filename, Span { start: script.start, end: script.end }),
    }
}

pub open spec fn scripts_of(s: Seq<char>, filename: Seq<char>, scripts: Seq<ScriptSpans>) -> Seq<
    RequestScriptView<UnprocessedView>,
> {
    Seq::new(scripts.len(), |i: int| script_of(s, filename, scripts[i]))
}

pub open spec fn file_of(s: Seq<char>, filename: Seq<char>, scripts: Seq<ScriptSpans>) -> FileView {
    FileView { request_scripts: scripts_of(s, filename, scripts) }
}

} // verus!
