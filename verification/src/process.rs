//! Resolving the placeholders of whole requests.
//!
//! The placeholders of a request are evaluated in the order in which they
//! are written: those of the target, then those of each header, then those
//! of the body. Only when all of them have a value is the request put
//! together.

use crate::model::{
    header_views, Header, HeaderView, Processed, ProcessedView, Request, RequestScript,
    RequestScriptView, RequestView, Unprocessed, UnprocessedView, Value, ValueView,
};
use crate::script_engine::{
    added, evaluated, inline_batch, interpolate, process_value, processed, run_batch, source_views,
    text_views, Batch, BatchView, Error, Scope, Source, SourceView,
};
use vstd::prelude::*;

verus! {

/// The scripts of the placeholders of a value, in order.
pub open spec fn value_scripts(value: ValueView<UnprocessedView>) -> Seq<SourceView> {
    inline_batch(value.state).scripts
}

/// The scripts of the placeholders of a list of headers, in order.
pub open spec fn headers_scripts(headers: Seq<HeaderView<UnprocessedView>>) -> Seq<SourceView>
    decreases headers.len(),
{
    if headers.len() == 0 {
        Seq::empty()
    } else {
        headers_scripts(headers.drop_last()) + value_scripts(headers.last().field_value)
    }
}

/// The scripts of the placeholders of a body, where there is one.
pub open spec fn body_scripts(body: Option<ValueView<UnprocessedView>>) -> Seq<SourceView> {
    match body {
        Some(body) => value_scripts(body),
        None => Seq::empty(),
    }
}

/// The scripts of the placeholders of a request: target, headers, body.
pub open spec fn request_scripts(request: RequestView<UnprocessedView>) -> Seq<SourceView> {
    value_scripts(request.target) + headers_scripts(request.headers) + body_scripts(request.body)
}

/// A header with its value resolved.
pub open spec fn processed_header(
    header: HeaderView<UnprocessedView>,
    values: Seq<Seq<char>>,
) -> HeaderView<ProcessedView> {
    HeaderView {
        field_name: header.field_name,
        field_value: processed(header.field_value.state, values),
        selection: header.selection,
    }
}

/// The headers with their values resolved; each takes, of the values of
/// all the headers, those of its own placeholders.
pub open spec fn processed_headers(
    headers: Seq<HeaderView<UnprocessedView>>,
    values: Seq<Seq<char>>,
) -> Seq<HeaderView<ProcessedView>> {
    Seq::new(
        headers.len(),
        |i: int|
            processed_header(
                headers[i],
                values.subrange(
                    headers_scripts(headers.take(i)).len() as int,
                    headers_scripts(headers.take(i + 1)).len() as int,
                ),
            ),
    )
}

/// The request with every text resolved; each takes, of the values of the
/// request, those of its own placeholders.
pub open spec fn processed_request(
    request: RequestView<UnprocessedView>,
    values: Seq<Seq<char>>,
) -> RequestView<ProcessedView> {
    let target = value_scripts(request.target).len() as int;
    let headers = headers_scripts(request.headers).len() as int;
    RequestView {
        method: request.method,
        target: processed(request.target.state, values.subrange(0, target)),
        headers: processed_headers(request.headers, values.subrange(target, target + headers)),
        body: match request.body {
            Some(body) => Some(
                processed(body.state, values.subrange(target + headers, values.len() as int)),
            ),
            None => None,
        },
        selection: request.selection,
    }
}

/// The request script with its request resolved.
pub open spec fn processed_script(
    script: RequestScriptView<UnprocessedView>,
    values: Seq<Seq<char>>,
) -> RequestScriptView<ProcessedView> {
    RequestScriptView {
        request: processed_request(script.request, values),
        handler: script.handler,
        selection: script.selection,
    }
}

/// The batch of scripts without a failure of its own.
pub open spec fn batch_of(scripts: Seq<SourceView>) -> BatchView {
    BatchView { scripts, failure: None }
}

/// What has placeholders that a script engine resolves.
pub trait Processable<E: Scope> {
    type Output: View;

    /// The scripts of the placeholders, in the order in which they are
    /// evaluated.
    spec fn scripts(&self) -> Seq<SourceView>;

    /// What comes out when the scripts have the given values.
    spec fn assembled(&self, values: Seq<Seq<char>>) -> <Self::Output as View>::V;

    /// Evaluates the scripts in order, up to the first that fails, whose
    /// error is the result; where none fails, puts the output together from
    /// their values.
    fn process(&self, engine: &mut E) -> (result: Result<Self::Output, Error>)
        ensures
            evaluated(*old(engine), *final(engine), batch_of(self.scripts())),
            match batch_of(self.scripts()).result(
                added(old(engine).trail(), final(engine).trail()),
            ) {
                Ok(values) => result is Ok && result->Ok_0@ == self.assembled(values),
                Err(error) => result is Err && result->Err_0@ == error,
            },
    ;
}

/// Adds the scripts of a value's placeholders to `sources`.
fn push_sources(value: &Value<Unprocessed>, sources: &mut Vec<Source>)
    ensures
        source_views(final(sources)@) == source_views(old(sources)@) + value_scripts(value@),
{
    match &value.state {
        Unprocessed::WithInline { value: _, inline_scripts, selection: _ } => {
            let mut i: usize = 0;
            assert(source_views(sources@) =~= source_views(old(sources)@) + value_scripts(
                value@,
            ).take(0));
            while i < inline_scripts.len()
                invariant
                    i <= inline_scripts.len(),
                    value@.state.inline_scripts() == crate::model::inline_script_views(
                        inline_scripts@,
                    ),
                    source_views(sources@) == source_views(old(sources)@) + value_scripts(
                        value@,
                    ).take(i as int),
                decreases inline_scripts.len() - i,
            {
                let ghost before = sources@;
                sources.push(
                    Source {
                        src: inline_scripts[i].script.clone(),
                        selection: inline_scripts[i].selection.clone(),
                    },
                );
                i += 1;
                proof {
                    let scripts = value_scripts(value@);
                    assert(scripts.take(i as int) =~= scripts.take(i - 1).push(scripts[i - 1]));
                    assert(scripts[i - 1] == sources@[sources.len() - 1]@);
                    assert(source_views(sources@) =~= source_views(before).push(scripts[i - 1]));
                    assert(source_views(sources@) =~= source_views(old(sources)@) + scripts.take(
                        i as int,
                    ));
                }
            }
            assert(value_scripts(value@).take(i as int) =~= value_scripts(value@));
        },
        Unprocessed::WithoutInline(_, _) => {
            assert(source_views(sources@) =~= source_views(old(sources)@) + value_scripts(value@));
        },
    }
}

/// The values from `from` up to `to`.
fn sub_values(values: &Vec<String>, from: usize, to: usize) -> (part: Vec<String>)
    requires
        from <= to <= values.len(),
    ensures
        text_views(part@) == text_views(values@).subrange(from as int, to as int),
{
    let mut part: Vec<String> = Vec::new();
    let mut i: usize = from;
    while i < to
        invariant
            from <= i <= to <= values.len(),
            part.len() == i - from,
            forall|k: int| 0 <= k < part.len() ==> (#[trigger] part@[k])@ == values@[from + k]@,
        decreases to - i,
    {
        part.push(values[i].clone());
        i += 1;
    }
    assert(text_views(part@) =~= text_views(values@).subrange(from as int, to as int));
    part
}

/// The value with its placeholders replaced by the given values.
fn assemble_value(value: &Value<Unprocessed>, values: &Vec<String>) -> (result: Value<Processed>)
    ensures
        result@ == processed(value@.state, text_views(values@)),
{
    match &value.state {
        Unprocessed::WithInline { value: text, inline_scripts, selection: _ } => Value {
            state: Processed { value: interpolate(text.as_str(), inline_scripts, values) },
        },
        Unprocessed::WithoutInline(text, _) => Value { state: Processed { value: text.clone() } },
    }
}

/// Evaluates scripts in order and hands out their values.
fn evaluate<E: Scope>(engine: &mut E, scripts: Vec<Source>) -> (result: Result<Vec<String>, Error>)
    ensures
        evaluated(*old(engine), *final(engine), batch_of(source_views(scripts@))),
        match batch_of(source_views(scripts@)).result(
            added(old(engine).trail(), final(engine).trail()),
        ) {
            Ok(values) => result is Ok && text_views(result->Ok_0@) == values && values.len()
                == scripts.len(),
            Err(error) => result is Err && result->Err_0@ == error,
        },
{
    let batch = Batch { scripts, failure: None };
    run_batch(engine, &batch)
}

impl<E: Scope> Processable<E> for Value<Unprocessed> {
    type Output = Value<Processed>;

    open spec fn scripts(&self) -> Seq<SourceView> {
        value_scripts(self@)
    }

    open spec fn assembled(&self, values: Seq<Seq<char>>) -> ValueView<ProcessedView> {
        processed(self@.state, values)
    }

    fn process(&self, engine: &mut E) -> (result: Result<Value<Processed>, Error>) {
        assert(batch_of(value_scripts(self@)) == inline_batch(self@.state));
        process_value(engine, self)
    }
}

impl<E: Scope> Processable<E> for Header<Unprocessed> {
    type Output = Header<Processed>;

    open spec fn scripts(&self) -> Seq<SourceView> {
        value_scripts(self@.field_value)
    }

    open spec fn assembled(&self, values: Seq<Seq<char>>) -> HeaderView<ProcessedView> {
        processed_header(self@, values)
    }

    fn process(&self, engine: &mut E) -> (result: Result<Header<Processed>, Error>) {
        let mut sources: Vec<Source> = Vec::new();
        push_sources(&self.field_value, &mut sources);
        assert(source_views(sources@) =~= value_scripts(self@.field_value));
        match evaluate(engine, sources) {
            Ok(values) => Ok(
                Header {
                    field_name: self.field_name.clone(),
                    field_value: assemble_value(&self.field_value, &values),
                    selection: self.selection.clone(),
                },
            ),
            Err(error) => Err(error),
        }
    }
}

/// The scripts of a request, and where in them those of each header begin;
/// the last of the marks is where those of the body begin.
fn request_sources(request: &Request<Unprocessed>) -> (r: (Vec<Source>, Vec<usize>))
    ensures
        source_views(r.0@) == request_scripts(request@),
        r.1.len() == request.headers.len() + 1,
        forall|i: int|
            0 <= i <= request.headers.len() ==> (#[trigger] r.1@[i]) == value_scripts(
                request@.target,
            ).len() + headers_scripts(request@.headers.take(i)).len(),
{
    let mut sources: Vec<Source> = Vec::new();
    push_sources(&request.target, &mut sources);
    assert(source_views(sources@) =~= value_scripts(request@.target));
    let mut marks: Vec<usize> = Vec::new();
    let ghost headers = request@.headers;
    let mut i: usize = 0;
    assert(headers.take(0) =~= Seq::empty());
    while i < request.headers.len()
        invariant
            i <= request.headers.len(),
            headers == request@.headers,
            headers.len() == request.headers.len(),
            source_views(sources@) == value_scripts(request@.target) + headers_scripts(
                headers.take(i as int),
            ),
            marks.len() == i,
            forall|k: int|
                0 <= k < i ==> (#[trigger] marks@[k]) == value_scripts(request@.target).len()
                    + headers_scripts(headers.take(k)).len(),
        decreases request.headers.len() - i,
    {
        marks.push(sources.len());
        proof {
            assert(headers.take(i + 1).drop_last() =~= headers.take(i as int));
            assert(headers.take(i + 1).last() == request.headers@[i as int]@);
        }
        push_sources(&request.headers[i].field_value, &mut sources);
        i += 1;
        assert(source_views(sources@) =~= value_scripts(request@.target) + headers_scripts(
            headers.take(i as int),
        ));
    }
    marks.push(sources.len());
    assert(headers.take(i as int) =~= headers);
    match &request.body {
        Some(body) => {
            push_sources(body, &mut sources);
        },
        None => {
            assert(source_views(sources@) =~= source_views(sources@) + Seq::<SourceView>::empty());
        },
    }
    (sources, marks)
}

/// The request put together from the values of its scripts.
fn assemble_request(request: &Request<Unprocessed>, marks: &Vec<usize>, values: &Vec<String>) -> (result:
    Request<Processed>)
    requires
        values.len() == request_scripts(request@).len(),
        marks.len() == request.headers.len() + 1,
        forall|i: int|
            0 <= i <= request.headers.len() ==> (#[trigger] marks@[i]) == value_scripts(
                request@.target,
            ).len() + headers_scripts(request@.headers.take(i)).len(),
    ensures
        result@ == processed_request(request@, text_views(values@)),
{
    let ghost all = text_views(values@);
    let ghost headers = request@.headers;
    let ghost target_len = value_scripts(request@.target).len() as int;
    proof {
        assert(headers.take(0) =~= Seq::empty());
        assert(headers.take(headers.len() as int) =~= headers);
        lemma_headers_scripts_grow(headers, 0, headers.len() as int);
    }
    let target = assemble_value(&request.target, &sub_values(values, 0, marks[0]));
    let last = marks[request.headers.len()];
    let mut processed_list: Vec<Header<Processed>> = Vec::new();
    let mut i: usize = 0;
    while i < request.headers.len()
        invariant
            i <= request.headers.len(),
            headers == request@.headers,
            all == text_views(values@),
            target_len == value_scripts(request@.target).len(),
            values.len() == request_scripts(request@).len(),
            marks.len() == request.headers.len() + 1,
            forall|k: int|
                0 <= k <= request.headers.len() ==> (#[trigger] marks@[k]) == target_len
                    + headers_scripts(headers.take(k)).len(),
            processed_list.len() == i,
            forall|k: int|
                0 <= k < i ==> (#[trigger] processed_list@[k])@ == processed_header(
                    headers[k],
                    all.subrange(marks@[k] as int, marks@[k + 1] as int),
                ),
        decreases request.headers.len() - i,
    {
        proof {
            lemma_headers_scripts_grow(headers, i as int, i + 1);
            lemma_headers_scripts_grow(headers, i + 1, headers.len() as int);
            assert(headers.take(headers.len() as int) =~= headers);
        }
        let header = &request.headers[i];
        let part = sub_values(values, marks[i], marks[i + 1]);
        processed_list.push(
            Header {
                field_name: header.field_name.clone(),
                field_value: assemble_value(&header.field_value, &part),
                selection: header.selection.clone(),
            },
        );
        i += 1;
    }
    let body = match &request.body {
        Some(body) => Some(assemble_value(body, &sub_values(values, last, values.len()))),
        None => None,
    };
    proof {
        let head = all.subrange(target_len, target_len + headers_scripts(headers).len());
        assert forall|k: int| 0 <= k < headers.len() implies all.subrange(
            (#[trigger] marks@[k]) as int,
            marks@[k + 1] as int,
        ) == head.subrange(
            headers_scripts(headers.take(k)).len() as int,
            headers_scripts(headers.take(k + 1)).len() as int,
        ) by {
            lemma_headers_scripts_grow(headers, k, k + 1);
            lemma_headers_scripts_grow(headers, k + 1, headers.len() as int);
            assert(headers.take(headers.len() as int) =~= headers);
            assert(all.subrange(marks@[k] as int, marks@[k + 1] as int) =~= head.subrange(
                headers_scripts(headers.take(k)).len() as int,
                headers_scripts(headers.take(k + 1)).len() as int,
            ));
        }
        assert(header_views(processed_list@) =~= processed_headers(headers, head));
    }
    Request {
        method: request.method.clone(),
        target,
        headers: processed_list,
        body,
        selection: request.selection.clone(),
    }
}

/// The scripts of more headers are more scripts.
proof fn lemma_headers_scripts_grow(headers: Seq<HeaderView<UnprocessedView>>, i: int, j: int)
    requires
        0 <= i <= j <= headers.len(),
    ensures
        headers_scripts(headers.take(i)).len() <= headers_scripts(headers.take(j)).len(),
    decreases j - i,
{
    if i < j {
        lemma_headers_scripts_grow(headers, i, j - 1);
        assert(headers.take(j).drop_last() =~= headers.take(j - 1));
    }
}

impl<E: Scope> Processable<E> for Request<Unprocessed> {
    type Output = Request<Processed>;

    open spec fn scripts(&self) -> Seq<SourceView> {
        request_scripts(self@)
    }

    open spec fn assembled(&self, values: Seq<Seq<char>>) -> RequestView<ProcessedView> {
        processed_request(self@, values)
    }

    fn process(&self, engine: &mut E) -> (result: Result<Request<Processed>, Error>) {
        let (sources, marks) = request_sources(self);
        match evaluate(engine, sources) {
            Ok(values) => Ok(assemble_request(self, &marks, &values)),
            Err(error) => Err(error),
        }
    }
}

impl<E: Scope> Processable<E> for RequestScript<Unprocessed> {
    type Output = RequestScript<Processed>;

    open spec fn scripts(&self) -> Seq<SourceView> {
        request_scripts(self@.request)
    }

    open spec fn assembled(&self, values: Seq<Seq<char>>) -> RequestScriptView<ProcessedView> {
        processed_script(self@, values)
    }

    fn process(&self, engine: &mut E) -> (result: Result<RequestScript<Processed>, Error>) {
        let (sources, marks) = request_sources(&self.request);
        match evaluate(engine, sources) {
            Ok(values) => Ok(
                RequestScript {
                    request: assemble_request(&self.request, &marks, &values),
                    handler: match &self.handler {
                        Some(handler) => Some(handler.clone()),
                        None => None,
                    },
                    selection: self.selection.clone(),
                },
            ),
            Err(error) => Err(error),
        }
    }
}

} // verus!
