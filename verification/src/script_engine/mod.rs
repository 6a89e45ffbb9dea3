//! The script engine: what an evaluator of scripts has to offer, and what
//! the library asks of it to resolve placeholders, to declare variables and
//! to hand a response to a handler.
//!
//! An engine keeps a scope. Every script that it evaluates is recorded, with
//! its outcome, in its trail, and every reset, with its outcome, in its
//! resets. The contracts below say which scripts a function hands to the
//! engine, in which order, what it makes of the outcomes, and whether the
//! engine is reset; what a script evaluates to is the engine's business.

pub mod engine;
pub mod json;
pub mod session;

use crate::model::{
    InlineScript, InlineScriptView, Processed, ProcessedView, Selection, SelectionView,
    Unprocessed, UnprocessedView, Value, ValueView,
};
use crate::script_engine::json::{
    json_of, json_string, json_string_map, read_json, write_json_string, write_json_string_map,
    Json, JsonView,
};
use crate::text::{decimal, decimal_string, replace_first, replace_first_in};
use crate::{Response, ResponseView};
use vstd::prelude::*;
use vstd::string::StringExecFns;

verus! {

/// A script to evaluate, and the place in a request file that it was taken
/// from.
pub struct Script<'a> {
    pub selection: Selection,
    pub src: &'a str,
}

impl<'a> Script<'a> {
    /// A script that the library wrote itself; it stands in no file.
    pub fn internal_script(src: &'a str) -> (script: Script<'a>)
        ensures
            script.src@ == src@,
            script.selection@ == SelectionView::none(),
    {
        Script { src, selection: Selection::none() }
    }
}

/// What went wrong in the engine.
#[derive(Debug, PartialEq, Eq, Clone, Copy)]
pub enum ErrorKind {
    /// The script is no script: it could not be read.
    Syntax,
    /// The script was read, and evaluating it failed.
    Runtime,
    /// Variables were to be declared from a JSON value that is no object.
    Declaration,
    /// The environment or the snapshot is no JSON.
    Initialization,
    /// A run was asked for a step that is not its next.
    Sequence,
}

/// A failure of the engine: its kind, a message, and the place of the script
/// that failed.
#[derive(Debug, PartialEq, Eq)]
pub struct Error {
    pub kind: ErrorKind,
    pub message: String,
    pub selection: Selection,
}

pub struct ErrorView {
    pub kind: ErrorKind,
    pub message: Seq<char>,
    pub selection: SelectionView,
}

impl View for Error {
    type V = ErrorView;

    open spec fn view(&self) -> ErrorView {
        ErrorView { kind: self.kind, message: self.message@, selection: self.selection@ }
    }
}

impl Clone for Error {
    fn clone(&self) -> (copy: Error)
        ensures
            copy@ == self@,
    {
        Error {
            kind: self.kind,
            message: self.message.clone(),
            selection: self.selection.clone(),
        }
    }
}

/// One evaluation: the script that was handed to the engine, and what came
/// back.
pub struct Exchange {
    pub src: Seq<char>,
    pub selection: SelectionView,
    pub outcome: Result<Seq<char>, ErrorView>,
}

/// What came back, seen as texts.
pub open spec fn outcome_of(result: Result<String, Error>) -> Result<Seq<char>, ErrorView> {
    match result {
        Ok(text) => Ok(text@),
        Err(error) => Err(error@),
    }
}

/// The exchange of evaluating `script` with result `result`.
pub open spec fn exchange_of(script: &Script, result: Result<String, Error>) -> Exchange {
    Exchange { src: script.src@, selection: script.selection@, outcome: outcome_of(result) }
}

/// A scope in which scripts are evaluated one after the other, each seeing
/// what the ones before it left behind.
pub trait Scope: Sized {
    /// What has been evaluated so far, oldest first.
    spec fn trail(&self) -> Seq<Exchange>;

    /// How the resets have ended by which scopes were given up for new ones,
    /// oldest first. Evaluating a script is no reset.
    spec fn resets(&self) -> Seq<Result<(), ErrorView>>;

    /// Whether an exchange is one that a scope of this kind can give: what
    /// is known of an outcome from the script alone.
    spec fn gives(exchange: Exchange) -> bool;

    /// Evaluates a script in the scope and returns its value as a text.
    fn execute_script(&mut self, script: &Script) -> (result: Result<String, Error>)
        ensures
            final(self).trail() == old(self).trail().push(exchange_of(script, result)),
            final(self).resets() == old(self).resets(),
            Self::gives(exchange_of(script, result)),
    ;
}

/// An evaluator of scripts that can give up its scope for a new one, and
/// keeps a store that outlasts the scopes.
pub trait ScriptEngine: Scope {
    /// Replaces the scope by a new one, into which nothing is taken over but
    /// what the snapshot holds. The trail goes on: a reset begins by taking
    /// the snapshot of the scope that it gives up. How the reset ended is
    /// added to the resets.
    fn reset(&mut self) -> (result: Result<(), Error>)
        ensures
            grown(old(self).trail(), final(self).trail()),
            old(self).trail().len() < final(self).trail().len(),
            final(self).trail()[old(self).trail().len() as int].src == snapshot_script(),
            final(self).resets() == old(self).resets().push(reset_outcome(result)),
    ;

    /// The store that outlasts the scope, as a JSON text: the value of the
    /// snapshot script in the scope. Taking it is no reset.
    fn snapshot(&mut self) -> (result: Result<String, Error>)
        ensures
            final(self).trail() == old(self).trail().push(snapshot_exchange(outcome_of(result))),
            final(self).resets() == old(self).resets(),
    ;
}

/// How a reset ended.
pub open spec fn reset_outcome(result: Result<(), Error>) -> Result<(), ErrorView> {
    match result {
        Ok(_) => Ok(()),
        Err(error) => Err(error@),
    }
}

/// The script whose value is the snapshot as a JSON text.
pub open spec fn snapshot_script() -> Seq<char> {
    "JSON.stringify(_snapshot)"@
}

/// The exchange of taking a snapshot with the given outcome.
pub open spec fn snapshot_exchange(outcome: Result<Seq<char>, ErrorView>) -> Exchange {
    Exchange { src: snapshot_script(), selection: SelectionView::none(), outcome }
}

/// Whether a trail has grown from an earlier state of it: what it held is
/// still there, in front.
pub open spec fn grown(before: Seq<Exchange>, after: Seq<Exchange>) -> bool {
    before.len() <= after.len() && after.take(before.len() as int) == before
}

/// A script that the library holds itself.
#[derive(Debug, PartialEq, Eq)]
pub struct Source {
    pub src: String,
    pub selection: Selection,
}

pub struct SourceView {
    pub src: Seq<char>,
    pub selection: SelectionView,
}

impl View for Source {
    type V = SourceView;

    open spec fn view(&self) -> SourceView {
        SourceView { src: self.src@, selection: self.selection@ }
    }
}

impl<'a> View for Script<'a> {
    type V = SourceView;

    open spec fn view(&self) -> SourceView {
        SourceView { src: self.src@, selection: self.selection@ }
    }
}

impl SourceView {
    /// A script that stands in no file.
    pub open spec fn internal(src: Seq<char>) -> SourceView {
        SourceView { src, selection: SelectionView::none() }
    }
}

impl Source {
    /// A script that stands in no file.
    pub fn internal(src: String) -> (source: Source)
        ensures
            source@ == SourceView::internal(src@),
    {
        Source { src, selection: Selection::none() }
    }
}

pub open spec fn source_views(sources: Seq<Source>) -> Seq<SourceView> {
    Seq::new(sources.len(), |i: int| sources[i]@)
}

/// Scripts to evaluate one after the other, and the error with which the
/// whole ends once all of them have succeeded, if it is to end with one.
#[derive(Debug, PartialEq, Eq)]
pub struct Batch {
    pub scripts: Vec<Source>,
    pub failure: Option<Error>,
}

pub struct BatchView {
    pub scripts: Seq<SourceView>,
    pub failure: Option<ErrorView>,
}

impl View for Batch {
    type V = BatchView;

    open spec fn view(&self) -> BatchView {
        BatchView {
            scripts: source_views(self.scripts@),
            failure: match self.failure {
                Some(error) => Some(error@),
                None => None,
            },
        }
    }
}

impl BatchView {
    /// Whether `exchanges` is what evaluating the scripts in order, up to
    /// the first that fails, leaves behind.
    pub open spec fn leaves(self, exchanges: Seq<Exchange>) -> bool {
        &&& exchanges.len() <= self.scripts.len()
        &&& forall|i: int|
            0 <= i < exchanges.len() ==> (#[trigger] exchanges[i]).src == self.scripts[i].src
                && exchanges[i].selection == self.scripts[i].selection
        &&& forall|i: int| 0 <= i < exchanges.len() - 1 ==> (#[trigger] exchanges[i]).outcome is Ok
        &&& exchanges.len() < self.scripts.len() ==> failed(exchanges)
    }

    /// What evaluating the batch gives, when `exchanges` is what it left
    /// behind: the error of the script that failed; or else the batch's own
    /// failure; or else the values of the scripts, in order.
    pub open spec fn result(self, exchanges: Seq<Exchange>) -> Result<Seq<Seq<char>>, ErrorView> {
        if failed(exchanges) {
            Err(exchanges.last().outcome->Err_0)
        } else {
            match self.failure {
                Some(error) => Err(error),
                None => Ok(values_of(exchanges)),
            }
        }
    }
}

/// Whether the last of the exchanges failed.
pub open spec fn failed(exchanges: Seq<Exchange>) -> bool {
    exchanges.len() > 0 && exchanges.last().outcome is Err
}

/// The values that the exchanges gave; the empty text for one that failed.
pub open spec fn values_of(exchanges: Seq<Exchange>) -> Seq<Seq<char>> {
    Seq::new(
        exchanges.len(),
        |i: int|
            match exchanges[i].outcome {
                Ok(text) => text,
                Err(_) => Seq::empty(),
            },
    )
}

/// What a trail holds behind an earlier state of it.
pub open spec fn added(before: Seq<Exchange>, after: Seq<Exchange>) -> Seq<Exchange> {
    after.skip(before.len() as int)
}

/// Whether a trail has grown from an earlier state of it, and by nothing but
/// what evaluating `batch` leaves behind.
pub open spec fn ran(before: Seq<Exchange>, after: Seq<Exchange>, batch: BatchView) -> bool {
    grown(before, after) && batch.leaves(added(before, after))
}

/// Whether an engine has come from an earlier state of it by evaluating
/// `batch` and by nothing else: its trail has grown by what the batch leaves
/// behind, each exchange one that the engine can give, and it was not reset.
pub open spec fn evaluated<E: Scope>(before: E, after: E, batch: BatchView) -> bool {
    &&& ran(before.trail(), after.trail(), batch)
    &&& after.resets() == before.resets()
    &&& forall|i: int|
        0 <= i < added(before.trail(), after.trail()).len() ==> E::gives(
            #[trigger] added(before.trail(), after.trail())[i],
        )
}

pub open spec fn text_views(texts: Seq<String>) -> Seq<Seq<char>> {
    Seq::new(texts.len(), |i: int| texts[i]@)
}

/// Evaluates the scripts of a batch in order, up to the first that fails.
/// The result is the error of that script; or, where none fails, the
/// failure of the batch; or, where it has none, the values of the scripts.
pub fn run_batch<E: Scope>(engine: &mut E, batch: &Batch) -> (result: Result<
    Vec<String>,
    Error,
>)
    ensures
        evaluated(*old(engine), *final(engine), batch@),
        match batch@.result(added(old(engine).trail(), final(engine).trail())) {
            Ok(values) => result is Ok && text_views(result->Ok_0@) == values,
            Err(error) => result is Err && result->Err_0@ == error,
        },
{
    let ghost before = engine.trail();
    let mut values: Vec<String> = Vec::new();
    let mut i: usize = 0;
    while i < batch.scripts.len()
        invariant
            i <= batch.scripts.len(),
            before == old(engine).trail(),
            engine.resets() == old(engine).resets(),
            before.len() + i == engine.trail().len(),
            engine.trail().take(before.len() as int) == before,
            values.len() == i,
            forall|k: int|
                0 <= k < i ==> {
                    let exchange = #[trigger] engine.trail()[before.len() + k];
                    &&& exchange.src == batch.scripts@[k].src@
                    &&& exchange.selection == batch.scripts@[k].selection@
                    &&& exchange.outcome == Ok::<Seq<char>, ErrorView>(values@[k]@)
                    &&& E::gives(exchange)
                },
        decreases batch.scripts.len() - i,
    {
        let source = &batch.scripts[i];
        let script = Script { selection: source.selection.clone(), src: source.src.as_str() };
        let ghost trail = engine.trail();
        let outcome = engine.execute_script(&script);
        proof {
            assert(engine.trail().take(before.len() as int) =~= before);
            assert forall|k: int| 0 <= k < i implies #[trigger] engine.trail()[before.len() + k]
                == trail[before.len() + k] by {}
        }
        match outcome {
            Ok(value) => {
                values.push(value);
            },
            Err(error) => {
                proof {
                    let exchanges = added(before, engine.trail());
                    assert(exchanges.len() == i + 1);
                    assert forall|k: int| 0 <= k < exchanges.len() implies (
                    #[trigger] exchanges[k]).src == batch@.scripts[k].src && exchanges[k].selection
                        == batch@.scripts[k].selection by {
                        assert(exchanges[k] == engine.trail()[before.len() + k]);
                    }
                    assert forall|k: int| 0 <= k < exchanges.len() - 1 implies (
                    #[trigger] exchanges[k]).outcome is Ok by {
                        assert(exchanges[k] == engine.trail()[before.len() + k]);
                    }
                    assert(exchanges.last() == engine.trail()[before.len() + i]);
                    assert forall|k: int| 0 <= k < exchanges.len() implies E::gives(
                        #[trigger] exchanges[k],
                    ) by {
                        assert(exchanges[k] == engine.trail()[before.len() + k]);
                    }
                }
                return Err(error);
            },
        }
        i += 1;
    }
    proof {
        let exchanges = added(before, engine.trail());
        assert(exchanges.len() == batch@.scripts.len());
        assert forall|k: int| 0 <= k < exchanges.len() implies (#[trigger] exchanges[k]).src
            == batch@.scripts[k].src && exchanges[k].selection == batch@.scripts[k].selection
            && exchanges[k].outcome == Ok::<Seq<char>, ErrorView>(values@[k]@) && E::gives(
            exchanges[k],
        ) by {
            assert(exchanges[k] == engine.trail()[before.len() + k]);
        }
        if exchanges.len() > 0 {
            assert(exchanges.last() == exchanges[exchanges.len() - 1]);
        }
        assert(text_views(values@) =~= values_of(exchanges));
    }
    match &batch.failure {
        Some(error) => Err(error.clone()),
        None => Ok(values),
    }
}

// ---------------------------------------------------------------------------
// Placeholders
// ---------------------------------------------------------------------------

/// How many placeholders are replaced: each needs a value.
pub open spec fn substitutions(scripts: Seq<InlineScriptView>, values: Seq<Seq<char>>) -> nat {
    if scripts.len() <= values.len() {
        scripts.len()
    } else {
        values.len()
    }
}

/// The text after the first `n` placeholders have been replaced, one after
/// the other: each time the leftmost occurrence of the placeholder in the
/// text as it stands by then gives way to the value of its script.
pub open spec fn interpolated(
    text: Seq<char>,
    scripts: Seq<InlineScriptView>,
    values: Seq<Seq<char>>,
    n: nat,
) -> Seq<char>
    decreases n,
{
    if n == 0 || n > scripts.len() || n > values.len() {
        text
    } else {
        replace_first(
            interpolated(text, scripts, values, (n - 1) as nat),
            scripts[n - 1].placeholder,
            values[n - 1],
        )
    }
}

/// Replaces the placeholders of a text by the values of their scripts, in
/// order.
pub fn interpolate(text: &str, inline_scripts: &Vec<InlineScript>, values: &Vec<String>) -> (result:
    String)
    ensures
        result@ == interpolated(
            text@,
            crate::model::inline_script_views(inline_scripts@),
            text_views(values@),
            substitutions(crate::model::inline_script_views(inline_scripts@), text_views(values@)),
        ),
{
    let count = if inline_scripts.len() <= values.len() {
        inline_scripts.len()
    } else {
        values.len()
    };
    let mut result = text.to_owned();
    let mut i: usize = 0;
    while i < count
        invariant
            i <= count,
            count <= inline_scripts.len(),
            count <= values.len(),
            result@ == interpolated(
                text@,
                crate::model::inline_script_views(inline_scripts@),
                text_views(values@),
                i as nat,
            ),
        decreases count - i,
    {
        result = replace_first_in(
            result.as_str(),
            inline_scripts[i].placeholder.as_str(),
            values[i].as_str(),
        );
        i += 1;
    }
    result
}

/// The scripts of the placeholders of a value, in order.
pub open spec fn inline_batch(value: UnprocessedView) -> BatchView {
    BatchView {
        scripts: Seq::new(
            value.inline_scripts().len(),
            |i: int|
                SourceView {
                    src: value.inline_scripts()[i].script,
                    selection: value.inline_scripts()[i].selection,
                },
        ),
        failure: None,
    }
}

/// The value with each placeholder replaced by the value of its script.
pub open spec fn processed(value: UnprocessedView, values: Seq<Seq<char>>) -> ValueView<
    ProcessedView,
> {
    ValueView {
        state: ProcessedView {
            value: interpolated(
                value.text(),
                value.inline_scripts(),
                values,
                substitutions(value.inline_scripts(), values),
            ),
        },
    }
}

fn inline_sources(inline_scripts: &Vec<InlineScript>) -> (batch: Batch)
    ensures
        batch@.failure is None,
        batch@.scripts == Seq::new(
            inline_scripts.len() as nat,
            |i: int|
                SourceView { src: inline_scripts@[i].script@, selection: inline_scripts@[i].selection@ },
        ),
{
    let mut scripts: Vec<Source> = Vec::new();
    let mut i: usize = 0;
    while i < inline_scripts.len()
        invariant
            i <= inline_scripts.len(),
            scripts.len() == i,
            forall|k: int|
                0 <= k < i ==> (#[trigger] scripts@[k])@ == (SourceView {
                    src: inline_scripts@[k].script@,
                    selection: inline_scripts@[k].selection@,
                }),
        decreases inline_scripts.len() - i,
    {
        scripts.push(
            Source {
                src: inline_scripts[i].script.clone(),
                selection: inline_scripts[i].selection.clone(),
            },
        );
        i += 1;
    }
    let batch = Batch { scripts, failure: None };
    assert(batch@.scripts =~= Seq::new(
        inline_scripts.len() as nat,
        |i: int|
            SourceView { src: inline_scripts@[i].script@, selection: inline_scripts@[i].selection@ },
    ));
    batch
}

/// Resolves the placeholders of a value.
///
/// The script of each placeholder is evaluated, in order, up to the first
/// that fails, whose error is the result. Where none fails, the result is
/// the text with each placeholder replaced by the value of its script. A
/// value without placeholders is handed back as it is, and the engine is
/// not asked.
pub fn process_value<E: Scope>(engine: &mut E, value: &Value<Unprocessed>) -> (result: Result<
    Value<Processed>,
    Error,
>)
    ensures
        evaluated(*old(engine), *final(engine), inline_batch(value@.state)),
        match inline_batch(value@.state).result(added(old(engine).trail(), final(engine).trail())) {
            Ok(values) => result is Ok && result->Ok_0@ == processed(value@.state, values),
            Err(error) => result is Err && result->Err_0@ == error,
        },
{
    match &value.state {
        Unprocessed::WithInline { value: text, inline_scripts, selection: _ } => {
            let batch = inline_sources(inline_scripts);
            assert(batch@ == inline_batch(value@.state)) by {
                assert(batch@.scripts =~= inline_batch(value@.state).scripts);
            }
            let values = match run_batch(engine, &batch) {
                Ok(values) => values,
                Err(error) => {
                    return Err(error);
                },
            };
            Ok(Value { state: Processed { value: interpolate(text.as_str(), inline_scripts, &values) } })
        },
        Unprocessed::WithoutInline(text, _) => {
            proof {
                assert(inline_batch(value@.state).scripts =~= Seq::empty());
                assert(added(engine.trail(), engine.trail()) =~= Seq::empty());
                assert(engine.trail().take(engine.trail().len() as int) =~= engine.trail());
            }
            Ok(Value { state: Processed { value: text.clone() } })
        },
    }
}

// ---------------------------------------------------------------------------
// Declaring variables
// ---------------------------------------------------------------------------

/// The script that binds the global variable `name` to the JSON value
/// `value`.
pub open spec fn declaration(name: Seq<char>, value: Seq<char>) -> Seq<char> {
    "this['"@ + name + "'] = "@ + value + ";"@
}

/// The message for a JSON value that is no object.
pub open spec fn declaration_failure(found: Seq<char>) -> ErrorView {
    ErrorView {
        kind: ErrorKind::Declaration,
        message: "Failed to declare object: "@ + found,
        selection: SelectionView::none(),
    }
}

/// What declaring the members of a JSON value takes: one script for each
/// member of an object, in order; for anything else no script, and a
/// failure.
pub open spec fn declarations(variables: JsonView) -> BatchView {
    match variables {
        JsonView::Object { members, .. } => BatchView {
            scripts: Seq::new(
                members.len(),
                |i: int| SourceView::internal(declaration(members[i].0, members[i].1)),
            ),
            failure: None,
        },
        JsonView::Other { text } => BatchView {
            scripts: Seq::empty(),
            failure: Some(declaration_failure(text)),
        },
        JsonView::Invalid { message } => BatchView {
            scripts: Seq::empty(),
            failure: Some(declaration_failure(message)),
        },
    }
}

fn declaration_script(name: &str, value: &str) -> (script: String)
    ensures
        script@ == declaration(name@, value@),
{
    let mut script = "this['".to_owned();
    script.append(name);
    script.append("'] = ");
    script.append(value);
    script.append(";");
    script
}

fn declaration_error(found: &str) -> (error: Error)
    ensures
        error@ == declaration_failure(found@),
{
    let mut message = "Failed to declare object: ".to_owned();
    message.append(found);
    Error { kind: ErrorKind::Declaration, message, selection: Selection::none() }
}

/// The scripts that declare the members of a JSON value as global
/// variables.
pub fn declaration_batch(variables: &Json) -> (batch: Batch)
    ensures
        batch@ == declarations(variables@),
{
    match variables {
        Json::Object { text: _, members } => {
            let mut scripts: Vec<Source> = Vec::new();
            let mut i: usize = 0;
            while i < members.len()
                invariant
                    i <= members.len(),
                    scripts.len() == i,
                    forall|k: int|
                        0 <= k < i ==> (#[trigger] scripts@[k])@ == SourceView::internal(
                            declaration(members@[k].0@, members@[k].1@),
                        ),
                decreases members.len() - i,
            {
                let script = declaration_script(members[i].0.as_str(), members[i].1.as_str());
                scripts.push(Source::internal(script));
                i += 1;
            }
            let batch = Batch { scripts, failure: None };
            assert(batch@.scripts =~= declarations(variables@).scripts);
            batch
        },
        Json::Other { text } => {
            let batch = Batch {
                scripts: Vec::new(),
                failure: Some(declaration_error(text.as_str())),
            };
            assert(batch@.scripts =~= declarations(variables@).scripts);
            batch
        },
        Json::Invalid { message } => {
            let batch = Batch {
                scripts: Vec::new(),
                failure: Some(declaration_error(message.as_str())),
            };
            assert(batch@.scripts =~= declarations(variables@).scripts);
            batch
        },
    }
}

/// Binds a global variable for each member of a JSON object, in the order
/// of the members. A value that is no object is refused, and the engine is
/// not asked.
pub fn declare<E: Scope>(engine: &mut E, variables: &Json) -> (result: Result<(), Error>)
    ensures
        evaluated(*old(engine), *final(engine), declarations(variables@)),
        match declarations(variables@).result(added(old(engine).trail(), final(engine).trail())) {
            Ok(_) => result is Ok,
            Err(error) => result is Err && result->Err_0@ == error,
        },
{
    let batch = declaration_batch(variables);
    match run_batch(engine, &batch) {
        Ok(_) => Ok(()),
        Err(error) => Err(error),
    }
}

// ---------------------------------------------------------------------------
// Handing a response to the scope
// ---------------------------------------------------------------------------

/// The script that binds `response`: an object of the body, written as a
/// JSON string or `null`, the headers, written as a JSON object, and the
/// status code.
pub open spec fn response_binding(
    status_code: u16,
    headers: Seq<char>,
    body: Option<Seq<char>>,
) -> Seq<char> {
    "var response = {\"body\":"@ + (match body {
        Some(body) => body,
        None => "null"@,
    }) + ",\"headers\":"@ + headers + ",\"status\":"@ + decimal(status_code as nat) + "};"@
}

/// The script that binds `response.body` anew to a JSON object.
pub open spec fn body_binding(object: Seq<char>) -> Seq<char> {
    "response.body = "@ + object + ";"@
}

/// The script that binds `response`.
pub fn response_script(status_code: u16, headers: &str, body: Option<&str>) -> (script: String)
    ensures
        script@ == response_binding(
            status_code,
            headers@,
            match body {
                Some(body) => Some(body@),
                None => None,
            },
        ),
{
    let mut script = "var response = {\"body\":".to_owned();
    match body {
        Some(body) => script.append(body),
        None => script.append("null"),
    }
    script.append(",\"headers\":");
    script.append(headers);
    script.append(",\"status\":");
    let status = decimal_string(status_code as u64);
    script.append(status.as_str());
    script.append("};");
    script
}

/// The script that binds `response.body` anew, for a body that is a JSON
/// object; none for any other body.
pub fn body_script(body: &Json) -> (script: Option<String>)
    ensures
        match body@ {
            JsonView::Object { text, .. } => script is Some && script->Some_0@ == body_binding(text),
            _ => script is None,
        },
{
    match body {
        Json::Object { text, members: _ } => {
            let mut script = "response.body = ".to_owned();
            script.append(text.as_str());
            script.append(";");
            Some(script)
        },
        _ => None,
    }
}

/// The scripts that hand a response to the scope. The first binds
/// `response` with the body as a text. Where the body is a JSON object, a
/// second binds `response.body` to that object.
pub open spec fn injection(response: ResponseView) -> Seq<SourceView> {
    let first = SourceView::internal(
        response_binding(
            response.status_code,
            json_string_map(response.headers),
            match response.body {
                Some(body) => Some(json_string(body)),
                None => None,
            },
        ),
    );
    match response.body {
        Some(body) => match json_of(body) {
            JsonView::Object { text, .. } => seq![first, SourceView::internal(body_binding(text))],
            _ => seq![first],
        },
        None => seq![first],
    }
}

fn injection_sources(response: &Response) -> (scripts: Vec<Source>)
    ensures
        source_views(scripts@) == injection(response@),
{
    let headers = write_json_string_map(&response.headers);
    let mut scripts: Vec<Source> = Vec::new();
    match &response.body {
        Some(body) => {
            let literal = write_json_string(body.as_str());
            scripts.push(
                Source::internal(
                    response_script(
                        response.status_code,
                        headers.as_str(),
                        Some(literal.as_str()),
                    ),
                ),
            );
            let json = read_json(body.as_str());
            match body_script(&json) {
                Some(script) => scripts.push(Source::internal(script)),
                None => {},
            }
        },
        None => {
            scripts.push(
                Source::internal(response_script(response.status_code, headers.as_str(), None)),
            );
        },
    }
    assert(source_views(scripts@) =~= injection(response@));
    scripts
}

/// The scripts that hand a response to the scope, as a batch.
pub open spec fn injection_batch(response: ResponseView) -> BatchView {
    BatchView { scripts: injection(response), failure: None }
}

/// Binds the global `response` to the status code, the headers and the body
/// of a response. A body that is a JSON object is bound as that object, any
/// other body as the text it is, and a missing one as `null`.
pub fn inject<E: Scope>(engine: &mut E, response: &Response) -> (result: Result<(), Error>)
    ensures
        evaluated(*old(engine), *final(engine), injection_batch(response@)),
        match injection_batch(response@).result(
            added(old(engine).trail(), final(engine).trail()),
        ) {
            Ok(_) => result is Ok,
            Err(error) => result is Err && result->Err_0@ == error,
        },
{
    let batch = Batch { scripts: injection_sources(response), failure: None };
    match run_batch(engine, &batch) {
        Ok(_) => Ok(()),
        Err(error) => Err(error),
    }
}

/// The scripts that hand a response to the scope, and the handler behind
/// them.
pub open spec fn handling_batch(script: SourceView, response: ResponseView) -> BatchView {
    BatchView { scripts: injection(response).push(script), failure: None }
}

/// Runs a handler on a response: the response is handed to the scope, then
/// the handler's script is evaluated. Its value is dropped.
pub fn handle<E: Scope>(engine: &mut E, script: &Script, response: &Response) -> (result:
    Result<(), Error>)
    ensures
        evaluated(*old(engine), *final(engine), handling_batch(script@, response@)),
        match handling_batch(script@, response@).result(
            added(old(engine).trail(), final(engine).trail()),
        ) {
            Ok(_) => result is Ok,
            Err(error) => result is Err && result->Err_0@ == error,
        },
{
    let mut scripts = injection_sources(response);
    scripts.push(Source { src: script.src.to_owned(), selection: script.selection.clone() });
    let batch = Batch { scripts, failure: None };
    assert(batch@.scripts =~= handling_batch(script@, response@).scripts);
    match run_batch(engine, &batch) {
        Ok(_) => Ok(()),
        Err(error) => Err(error),
    }
}

} // verus!
