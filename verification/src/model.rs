//! The document model: what a request file holds once it has been read, and
//! what a request looks like before and after its placeholders are resolved.

use crate::text::{decimal, decimal_string};
use vstd::prelude::*;
use vstd::string::StringExecFns;

verus! {

/// A place in a source text: line and column, both counted from 1.
/// The all-zero position belongs to no source text.
#[derive(Debug, PartialEq, Eq, Clone, Copy)]
pub struct Position {
    pub line: usize,
    pub col: usize,
}

/// A span of a source file, from `start` up to `end`.
#[derive(Debug, PartialEq, Eq)]
pub struct Selection {
    pub filename: String,
    pub start: Position,
    pub end: Position,
}

pub struct SelectionView {
    pub filename: Seq<char>,
    pub start: Position,
    pub end: Position,
}

impl View for Selection {
    type V = SelectionView;

    open spec fn view(&self) -> SelectionView {
        SelectionView { filename: self.filename@, start: self.start, end: self.end }
    }
}

impl SelectionView {
    /// The span of text that was not taken from any file.
    pub open spec fn none() -> SelectionView {
        SelectionView {
            filename: Seq::empty(),
            start: Position { line: 0, col: 0 },
            end: Position { line: 0, col: 0 },
        }
    }
}

impl Clone for Selection {
    fn clone(&self) -> (copy: Selection)
        ensures
            copy@ == self@,
    {
        Selection { filename: self.filename.clone(), start: self.start, end: self.end }
    }
}

impl SelectionView {
    /// Where the span begins, as a reader of messages wants it: file name,
    /// line and column, with colons between them.
    pub open spec fn text(self) -> Seq<char> {
        self.filename + ":"@ + decimal(self.start.line as nat) + ":"@ + decimal(
            self.start.col as nat,
        )
    }
}

impl Selection {
    /// Where the span begins: file name, line and column, with colons
    /// between them.
    pub fn text(&self) -> (text: String)
        ensures
            text@ == self@.text(),
    {
        let mut text = self.filename.clone();
        text.append(":");
        let line = decimal_string(self.start.line as u64);
        text.append(line.as_str());
        text.append(":");
        let col = decimal_string(self.start.col as u64);
        text.append(col.as_str());
        text
    }

    /// The span given to scripts that the library writes itself.
    pub fn none() -> (selection: Selection)
        ensures
            selection@ == SelectionView::none(),
    {
        Selection {
            filename: String::new(),
            start: Position { line: 0, col: 0 },
            end: Position { line: 0, col: 0 },
        }
    }
}

/// One `{{ .. }}` placeholder of a value: the text between the braces, the
/// placeholder exactly as written, and where it stands.
#[derive(Debug, PartialEq, Eq)]
pub struct InlineScript {
    pub script: String,
    pub placeholder: String,
    pub selection: Selection,
}

pub struct InlineScriptView {
    pub script: Seq<char>,
    pub placeholder: Seq<char>,
    pub selection: SelectionView,
}

impl View for InlineScript {
    type V = InlineScriptView;

    open spec fn view(&self) -> InlineScriptView {
        InlineScriptView {
            script: self.script@,
            placeholder: self.placeholder@,
            selection: self.selection@,
        }
    }
}

impl Clone for InlineScript {
    fn clone(&self) -> (copy: InlineScript)
        ensures
            copy@ == self@,
    {
        InlineScript {
            script: self.script.clone(),
            placeholder: self.placeholder.clone(),
            selection: self.selection.clone(),
        }
    }
}

/// The views of a list of placeholders, in order.
pub open spec fn inline_script_views(scripts: Seq<InlineScript>) -> Seq<InlineScriptView> {
    Seq::new(scripts.len(), |i: int| scripts[i]@)
}

/// A text as it was read: with the placeholders found in it, or without any.
#[derive(Debug, PartialEq, Eq)]
pub enum Unprocessed {
    WithInline { value: String, inline_scripts: Vec<InlineScript>, selection: Selection },
    WithoutInline(String, Selection),
}

pub enum UnprocessedView {
    WithInline { value: Seq<char>, inline_scripts: Seq<InlineScriptView>, selection: SelectionView },
    WithoutInline(Seq<char>, SelectionView),
}

impl View for Unprocessed {
    type V = UnprocessedView;

    open spec fn view(&self) -> UnprocessedView {
        match self {
            Unprocessed::WithInline { value, inline_scripts, selection } => {
                UnprocessedView::WithInline {
                    value: value@,
                    inline_scripts: inline_script_views(inline_scripts@),
                    selection: selection@,
                }
            },
            Unprocessed::WithoutInline(value, selection) => {
                UnprocessedView::WithoutInline(value@, selection@)
            },
        }
    }
}

impl UnprocessedView {
    /// The text as written, placeholders included.
    pub open spec fn text(self) -> Seq<char> {
        match self {
            UnprocessedView::WithInline { value, .. } => value,
            UnprocessedView::WithoutInline(value, _) => value,
        }
    }

    /// The placeholders of the text, in order.
    pub open spec fn inline_scripts(self) -> Seq<InlineScriptView> {
        match self {
            UnprocessedView::WithInline { inline_scripts, .. } => inline_scripts,
            UnprocessedView::WithoutInline(..) => Seq::empty(),
        }
    }

    /// Where the text stands.
    pub open spec fn selection(self) -> SelectionView {
        match self {
            UnprocessedView::WithInline { selection, .. } => selection,
            UnprocessedView::WithoutInline(_, selection) => selection,
        }
    }

    /// A value that lists placeholders has at least one.
    pub open spec fn well_formed(self) -> bool {
        self matches UnprocessedView::WithInline { inline_scripts, .. } ==> inline_scripts.len() > 0
    }
}

impl Unprocessed {
    /// The text as written, placeholders included.
    pub fn text(&self) -> (text: &String)
        ensures
            text@ == self@.text(),
    {
        match self {
            Unprocessed::WithInline { value, .. } => value,
            Unprocessed::WithoutInline(value, _) => value,
        }
    }

    /// Where the text stands.
    pub fn selection(&self) -> (selection: &Selection)
        ensures
            selection@ == self@.selection(),
    {
        match self {
            Unprocessed::WithInline { selection, .. } => selection,
            Unprocessed::WithoutInline(_, selection) => selection,
        }
    }
}

/// A text with every placeholder resolved.
#[derive(Debug, PartialEq, Eq)]
pub struct Processed {
    pub value: String,
}

pub struct ProcessedView {
    pub value: Seq<char>,
}

impl View for Processed {
    type V = ProcessedView;

    open spec fn view(&self) -> ProcessedView {
        ProcessedView { value: self.value@ }
    }
}

/// A text of a request in processing state `S`.
#[derive(Debug, PartialEq, Eq)]
pub struct Value<S> {
    pub state: S,
}

pub struct ValueView<V> {
    pub state: V,
}

impl<S: View> View for Value<S> {
    type V = ValueView<S::V>;

    open spec fn view(&self) -> ValueView<S::V> {
        ValueView { state: self.state@ }
    }
}

/// The request method, with the place where its token stands.
#[derive(Debug, PartialEq, Eq)]
pub enum Method {
    Get(Selection),
    Post(Selection),
    Delete(Selection),
    Put(Selection),
    Patch(Selection),
    Options(Selection),
}

pub enum MethodView {
    Get(SelectionView),
    Post(SelectionView),
    Delete(SelectionView),
    Put(SelectionView),
    Patch(SelectionView),
    Options(SelectionView),
}

impl View for Method {
    type V = MethodView;

    open spec fn view(&self) -> MethodView {
        match self {
            Method::Get(selection) => MethodView::Get(selection@),
            Method::Post(selection) => MethodView::Post(selection@),
            Method::Delete(selection) => MethodView::Delete(selection@),
            Method::Put(selection) => MethodView::Put(selection@),
            Method::Patch(selection) => MethodView::Patch(selection@),
            Method::Options(selection) => MethodView::Options(selection@),
        }
    }
}

impl MethodView {
    /// Where the token of the method stands.
    pub open spec fn selection(self) -> SelectionView {
        match self {
            MethodView::Get(selection) => selection,
            MethodView::Post(selection) => selection,
            MethodView::Delete(selection) => selection,
            MethodView::Put(selection) => selection,
            MethodView::Patch(selection) => selection,
            MethodView::Options(selection) => selection,
        }
    }
}

impl Method {
    /// Where the token of the method stands.
    pub fn selection(&self) -> (selection: &Selection)
        ensures
            selection@ == self@.selection(),
    {
        match self {
            Method::Get(selection) => selection,
            Method::Post(selection) => selection,
            Method::Delete(selection) => selection,
            Method::Put(selection) => selection,
            Method::Patch(selection) => selection,
            Method::Options(selection) => selection,
        }
    }
}

impl Clone for Method {
    fn clone(&self) -> (copy: Method)
        ensures
            copy@ == self@,
    {
        match self {
            Method::Get(selection) => Method::Get(selection.clone()),
            Method::Post(selection) => Method::Post(selection.clone()),
            Method::Delete(selection) => Method::Delete(selection.clone()),
            Method::Put(selection) => Method::Put(selection.clone()),
            Method::Patch(selection) => Method::Patch(selection.clone()),
            Method::Options(selection) => Method::Options(selection.clone()),
        }
    }
}

/// One header line. The name is taken as written; only the value may hold
/// placeholders.
#[derive(Debug, PartialEq, Eq)]
pub struct Header<S> {
    pub field_name: String,
    pub field_value: Value<S>,
    pub selection: Selection,
}

pub struct HeaderView<V> {
    pub field_name: Seq<char>,
    pub field_value: ValueView<V>,
    pub selection: SelectionView,
}

impl<S: View> View for Header<S> {
    type V = HeaderView<S::V>;

    open spec fn view(&self) -> HeaderView<S::V> {
        HeaderView {
            field_name: self.field_name@,
            field_value: self.field_value@,
            selection: self.selection@,
        }
    }
}

/// The views of a list of headers, in order.
pub open spec fn header_views<S: View>(headers: Seq<Header<S>>) -> Seq<HeaderView<S::V>> {
    Seq::new(headers.len(), |i: int| headers[i]@)
}

/// The script that runs once the response of its request has arrived.
#[derive(Debug, PartialEq, Eq)]
pub struct Handler {
    pub script: String,
    pub selection: Selection,
}

pub struct HandlerView {
    pub script: Seq<char>,
    pub selection: SelectionView,
}

impl View for Handler {
    type V = HandlerView;

    open spec fn view(&self) -> HandlerView {
        HandlerView { script: self.script@, selection: self.selection@ }
    }
}

impl Clone for Handler {
    fn clone(&self) -> (copy: Handler)
        ensures
            copy@ == self@,
    {
        Handler { script: self.script.clone(), selection: self.selection.clone() }
    }
}

/// Method, target, headers and body of one request in processing state `S`.
#[derive(Debug, PartialEq, Eq)]
pub struct Request<S> {
    pub method: Method,
    pub target: Value<S>,
    pub headers: Vec<Header<S>>,
    pub body: Option<Value<S>>,
    pub selection: Selection,
}

pub struct RequestView<V> {
    pub method: MethodView,
    pub target: ValueView<V>,
    pub headers: Seq<HeaderView<V>>,
    pub body: Option<ValueView<V>>,
    pub selection: SelectionView,
}

impl<S: View> View for Request<S> {
    type V = RequestView<S::V>;

    open spec fn view(&self) -> RequestView<S::V> {
        RequestView {
            method: self.method@,
            target: self.target@,
            headers: header_views(self.headers@),
            body: match self.body {
                Some(body) => Some(body@),
                None => None,
            },
            selection: self.selection@,
        }
    }
}

/// A request with the handler that follows it, if any.
#[derive(Debug, PartialEq, Eq)]
pub struct RequestScript<S> {
    pub request: Request<S>,
    pub handler: Option<Handler>,
    pub selection: Selection,
}

pub struct RequestScriptView<V> {
    pub request: RequestView<V>,
    pub handler: Option<HandlerView>,
    pub selection: SelectionView,
}

impl<S: View> View for RequestScript<S> {
    type V = RequestScriptView<S::V>;

    open spec fn view(&self) -> RequestScriptView<S::V> {
        RequestScriptView {
            request: self.request@,
            handler: match self.handler {
                Some(handler) => Some(handler@),
                None => None,
            },
            selection: self.selection@,
        }
    }
}

/// The views of a list of request scripts, in order.
pub open spec fn request_script_views<S: View>(scripts: Seq<RequestScript<S>>) -> Seq<
    RequestScriptView<S::V>,
> {
    Seq::new(scripts.len(), |i: int| scripts[i]@)
}

/// A request file: its request scripts in the order in which they are written.
#[derive(Debug, PartialEq, Eq)]
pub struct File {
    pub request_scripts: Vec<RequestScript<Unprocessed>>,
}

pub struct FileView {
    pub request_scripts: Seq<RequestScriptView<UnprocessedView>>,
}

impl View for File {
    type V = FileView;

    open spec fn view(&self) -> FileView {
        FileView { request_scripts: request_script_views(self.request_scripts@) }
    }
}

} // verus!
