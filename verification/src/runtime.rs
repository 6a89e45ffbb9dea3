//! Running the request scripts of a file, one after the other.
//!
//! A run takes turns with whoever sends the requests. The run resolves the
//! next request and hands it out; the response comes back; the run hands it
//! to the handler of the request and gives the engine a new scope. When no
//! request is left, the run hands out the snapshot of the engine.
//!
//! So for each request script of the run, in order: its request is resolved
//! and handed out once; its handler runs on the response where it has one;
//! then the engine is reset once, and only a reset that succeeds lets the run
//! go on to the next script. The snapshot that ends the run is taken behind
//! the last reset.

use crate::client::{Delivery, HttpClient, Sender};
use crate::model::{File, RequestScript, Selection, SelectionView, Unprocessed};
use crate::process::{batch_of, processed_request, request_scripts};
use crate::script_engine::{
    added, grown, handle, handling_batch, ran, reset_outcome, snapshot_exchange, snapshot_script,
    BatchView, Error, ErrorKind, ErrorView, Exchange, Scope, Script, ScriptEngine, SourceView,
};
use crate::select::{selected, targets, NotFound};
use crate::{process, sent_request, Request, Response, ResponseView};
use vstd::prelude::*;

verus! {

/// What a run asks for next.
#[derive(Debug, PartialEq, Eq)]
pub enum Action {
    /// Send this request, and come back with the response.
    Send(Request),
    /// Nothing is left to send: keep this snapshot for the next run.
    Finish(String),
}

/// What ends a run before its last request script is done with.
#[derive(Debug, PartialEq, Eq)]
pub enum Failure {
    /// The engine failed: on a placeholder, on a handler, on a reset or
    /// on the snapshot.
    Engine(Error),
    /// The client came back without a response.
    Client(String),
}

/// So many resets that succeeded.
pub open spec fn successes(n: nat) -> Seq<Result<(), ErrorView>> {
    Seq::new(n, |i: int| Ok(()))
}

/// A run of the chosen request scripts of a file on an engine.
pub struct Runtime<'a, E: ScriptEngine> {
    engine: E,
    scripts: Vec<&'a RequestScript<Unprocessed>>,
    done: usize,
    awaiting: bool,
}

/// The error for a step that is not the next of the run.
pub open spec fn out_of_turn() -> ErrorView {
    ErrorView {
        kind: ErrorKind::Sequence,
        message: "the run is at another step"@,
        selection: SelectionView::none(),
    }
}

fn out_of_turn_error() -> (error: Error)
    ensures
        error@ == out_of_turn(),
{
    Error {
        kind: ErrorKind::Sequence,
        message: "the run is at another step".to_owned(),
        selection: Selection::none(),
    }
}

/// What a response sets off in the engine before the scope is given up:
/// the handler of the request script, where it has one.
pub open spec fn conclusion(script: &RequestScript<Unprocessed>, response: ResponseView) -> BatchView {
    match script.handler {
        Some(handler) => handling_batch(
            SourceView { src: handler.script@, selection: handler.selection@ },
            response,
        ),
        None => BatchView { scripts: Seq::empty(), failure: None },
    }
}

/// What taking a response has done to the engine, where `handled` is the
/// trail as the handler left it. A handler that failed ends it there, with
/// its error as the result and without a reset. Else the engine was reset
/// once: the trail goes on with the snapshot that a reset begins with, and
/// the result is how the reset ended.
pub open spec fn responded(
    script: &RequestScript<Unprocessed>,
    response: ResponseView,
    before: Seq<Exchange>,
    handled: Seq<Exchange>,
    after: Seq<Exchange>,
    resets_before: Seq<Result<(), ErrorView>>,
    resets_after: Seq<Result<(), ErrorView>>,
    outcome: Result<(), ErrorView>,
) -> bool {
    let batch = conclusion(script, response);
    &&& ran(before, handled, batch)
    &&& match batch.result(added(before, handled)) {
        Err(error) => {
            &&& outcome == Err::<(), ErrorView>(error)
            &&& after == handled
            &&& resets_after == resets_before
        },
        Ok(_) => {
            &&& grown(handled, after)
            &&& handled.len() < after.len()
            &&& after[handled.len() as int].src == snapshot_script()
            &&& resets_after == resets_before.push(outcome)
        },
    }
}

/// Whether a request script was taken as far as its response, and failed
/// there with `error`: its request was resolved, the request that the
/// values give was handed to the client, a response came back, and then
/// the handler failed, or the reset did.
pub open spec fn failed_at_response(
    at: Seq<Exchange>,
    resolved: Seq<Exchange>,
    handled: Seq<Exchange>,
    after: Seq<Exchange>,
    script: RequestScript<Unprocessed>,
    delivery: Delivery,
    resets_before: Seq<Result<(), ErrorView>>,
    resets_after: Seq<Result<(), ErrorView>>,
    error: ErrorView,
) -> bool {
    let asked = batch_of(request_scripts(script.request@));
    &&& ran(at, resolved, asked)
    &&& asked.result(added(at, resolved)) is Ok
    &&& delivery.request == sent_request(
        processed_request(script.request@, asked.result(added(at, resolved))->Ok_0),
    )
    &&& delivery.outcome is Ok
    &&& responded(
        &script,
        delivery.outcome->Ok_0,
        resolved,
        handled,
        after,
        resets_before,
        resets_after,
        Err(error),
    )
}

/// Whether a request script was taken as far as its response, and failed
/// there with `error`, at some places of the trail.
pub open spec fn failed_behind_sending(
    at: Seq<Exchange>,
    after: Seq<Exchange>,
    script: RequestScript<Unprocessed>,
    delivery: Delivery,
    resets_before: Seq<Result<(), ErrorView>>,
    resets_after: Seq<Result<(), ErrorView>>,
    error: ErrorView,
) -> bool {
    exists|resolved: Seq<Exchange>, handled: Seq<Exchange>| #[trigger]
        failed_at_response(
            at,
            resolved,
            handled,
            after,
            script,
            delivery,
            resets_before,
            resets_after,
            error,
        )
}

/// Whether the engine ended a run with `error` at the request script that
/// was next, or at the snapshot where none was left. Where none was left,
/// the snapshot failed. Else a placeholder of the request failed, and
/// nothing was sent; or the request was sent, a response came back, and
/// the handler or the reset failed.
pub open spec fn ended_by_engine(
    next: Option<RequestScript<Unprocessed>>,
    trail: (Seq<Exchange>, Seq<Exchange>),
    resets: (Seq<Result<(), ErrorView>>, Seq<Result<(), ErrorView>>),
    deliveries: Seq<Delivery>,
    error: ErrorView,
) -> bool {
    match next {
        None => {
            &&& deliveries.len() == 0
            &&& trail.1 == trail.0.push(snapshot_exchange(Err::<Seq<char>, ErrorView>(error)))
            &&& resets.1 == resets.0
        },
        Some(script) => {
            let asked = batch_of(request_scripts(script.request@));
            if deliveries.len() == 0 {
                &&& ran(trail.0, trail.1, asked)
                &&& asked.result(added(trail.0, trail.1)) == Err::<Seq<Seq<char>>, ErrorView>(
                    error,
                )
                &&& resets.1 == resets.0
            } else {
                &&& deliveries.len() == 1
                &&& failed_behind_sending(
                    trail.0,
                    trail.1,
                    script,
                    deliveries[0],
                    resets.0,
                    resets.1,
                    error,
                )
            }
        },
    }
}

/// The request script that is next when so many are done with.
pub open spec fn next_of(scripts: Seq<RequestScript<Unprocessed>>, done: nat) -> Option<
    RequestScript<Unprocessed>,
> {
    if done < scripts.len() {
        Some(scripts[done as int])
    } else {
        None
    }
}

/// Where in the trail a request script was taken through: where its
/// request was resolved, where its handler was done with, and where the
/// reset behind it ended.
pub struct Step {
    pub resolved: int,
    pub handled: int,
    pub end: int,
}

/// Whether the trail shows, from `start` on, that a request script was
/// taken through, and the delivery that its request was sent. Up to
/// `resolved` stand the exchanges of the placeholders of its request, each
/// with a value, and the request that was handed to the client is the one
/// that those values give. A response came back. Up to `handled` stand the
/// exchanges of its handler on that response, none failing; there are none
/// where it has no handler. Then stands the reset, which begins by taking
/// the snapshot, and reaches to `end`.
#[verifier::opaque]
pub open spec fn step_taken(
    trail: Seq<Exchange>,
    start: int,
    step: Step,
    script: RequestScript<Unprocessed>,
    delivery: Delivery,
) -> bool {
    let asked = batch_of(request_scripts(script.request@));
    let values = asked.result(trail.subrange(start, step.resolved));
    &&& 0 <= start <= step.resolved <= step.handled < step.end <= trail.len()
    &&& asked.leaves(trail.subrange(start, step.resolved))
    &&& values is Ok
    &&& delivery.request == sent_request(processed_request(script.request@, values->Ok_0))
    &&& delivery.outcome is Ok
    &&& conclusion(&script, delivery.outcome->Ok_0).leaves(
        trail.subrange(step.resolved, step.handled),
    )
    &&& conclusion(&script, delivery.outcome->Ok_0).result(
        trail.subrange(step.resolved, step.handled),
    ) is Ok
    &&& trail[step.handled].src == snapshot_script()
}

/// Where the steps end: with the last of them, or at `start` where there
/// is none.
pub open spec fn end_of(steps: Seq<Step>, start: int) -> int {
    if steps.len() == 0 {
        start
    } else {
        steps.last().end
    }
}

/// Whether the trail shows, from `start` on, that the request scripts from
/// `from` on were taken through one after the other, as many as there are
/// steps, each beginning where the one before it ended, and the deliveries
/// that their requests were sent in that order, each once.
pub open spec fn taken_through(
    trail: Seq<Exchange>,
    start: int,
    steps: Seq<Step>,
    scripts: Seq<RequestScript<Unprocessed>>,
    from: int,
    deliveries: Seq<Delivery>,
) -> bool {
    &&& 0 <= from
    &&& steps.len() > 0 ==> from + steps.len() <= scripts.len()
    &&& steps.len() <= deliveries.len()
    &&& forall|i: int|
        0 <= i < steps.len() ==> step_taken(
            trail,
            end_of(steps.take(i), start),
            #[trigger] steps[i],
            scripts[from + i],
            deliveries[i],
        )
}

/// What a run to the end has done, where `steps` tells where in the trail
/// each request script was taken through. The request scripts that are done
/// with were taken through in order, from the one that was next, and their
/// requests sent, each once. Each was followed by one reset, which
/// succeeded. Then:
/// - a run that hands out the snapshot has taken all its request scripts
///   through, has sent nothing else, and the snapshot is the last that the
///   engine evaluated, behind the last reset;
/// - a run that the client ended has resolved the next request and handed
///   it to the client, which came back without a response, and the request
///   is still out;
/// - a run that the engine ended has failed at the next request script, or
///   at the snapshot.
pub open spec fn executed(
    scripts: Seq<RequestScript<Unprocessed>>,
    done: (nat, nat),
    awaiting: bool,
    trail: (Seq<Exchange>, Seq<Exchange>),
    resets: (Seq<Result<(), ErrorView>>, Seq<Result<(), ErrorView>>),
    sent: (Seq<Delivery>, Seq<Delivery>),
    steps: Seq<Step>,
    result: Result<String, Failure>,
) -> bool {
    let deliveries = sent.1.skip(sent.0.len() as int);
    let end = end_of(steps, trail.0.len() as int);
    &&& done.1 == done.0 + steps.len()
    &&& deliveries.len() <= steps.len() + 1
    &&& taken_through(trail.1, trail.0.len() as int, steps, scripts, done.0 as int, deliveries)
    &&& end <= trail.1.len()
    &&& resets.1.len() >= resets.0.len() + steps.len()
    &&& resets.1.take((resets.0.len() + steps.len()) as int) == resets.0 + successes(steps.len())
    &&& match result {
        Ok(snapshot) => {
            &&& done.1 >= scripts.len()
            &&& !awaiting
            &&& deliveries.len() == steps.len()
            &&& resets.1 == resets.0 + successes(steps.len())
            &&& trail.1 == trail.1.take(end).push(
                snapshot_exchange(Ok::<Seq<char>, ErrorView>(snapshot@)),
            )
        },
        Err(Failure::Client(cause)) => {
            let asked = batch_of(request_scripts(scripts[done.1 as int].request@));
            &&& done.1 < scripts.len()
            &&& awaiting
            &&& deliveries.len() == steps.len() + 1
            &&& resets.1 == resets.0 + successes(steps.len())
            &&& asked.leaves(trail.1.skip(end))
            &&& asked.result(trail.1.skip(end)) is Ok
            &&& deliveries.last().request == sent_request(
                processed_request(
                    scripts[done.1 as int].request@,
                    asked.result(trail.1.skip(end))->Ok_0,
                ),
            )
            &&& deliveries.last().outcome == Err::<ResponseView, Seq<char>>(cause@)
        },
        Err(Failure::Engine(error)) => ended_by_engine(
            next_of(scripts, done.1),
            (trail.1.take(end), trail.1),
            (resets.0 + successes(steps.len()), resets.1),
            deliveries.skip(steps.len() as int),
            error@,
        ),
    }
}

/// What has been evaluated stays where it is when the trail goes on.
pub proof fn lemma_grown_keeps(before: Seq<Exchange>, after: Seq<Exchange>, from: int, to: int)
    requires
        grown(before, after),
        0 <= from <= to <= before.len(),
    ensures
        after.subrange(from, to) == before.subrange(from, to),
{
    assert forall|i: int| 0 <= i < to - from implies after.subrange(from, to)[i]
        == before.subrange(from, to)[i] by {
        assert(after.take(before.len() as int)[from + i] == before[from + i]);
    }
    assert(after.subrange(from, to) =~= before.subrange(from, to));
}

/// A trail that has grown twice has grown.
pub proof fn lemma_grown_on(first: Seq<Exchange>, second: Seq<Exchange>, third: Seq<Exchange>)
    requires
        grown(first, second),
        grown(second, third),
    ensures
        grown(first, third),
{
    assert forall|i: int| 0 <= i < first.len() implies third.take(first.len() as int)[i]
        == first[i] by {
        assert(third.take(second.len() as int)[i] == second[i]);
        assert(second.take(first.len() as int)[i] == first[i]);
    }
    assert(third.take(first.len() as int) =~= first);
}

/// What the trail shows of request scripts that were taken through, it
/// shows when it has gone on.
pub proof fn lemma_steps_stay(
    before: Seq<Exchange>,
    after: Seq<Exchange>,
    start: int,
    steps: Seq<Step>,
    scripts: Seq<RequestScript<Unprocessed>>,
    from: int,
    deliveries: Seq<Delivery>,
)
    requires
        grown(before, after),
        taken_through(before, start, steps, scripts, from, deliveries),
    ensures
        taken_through(after, start, steps, scripts, from, deliveries),
{
    assert forall|i: int| 0 <= i < steps.len() implies step_taken(
        after,
        end_of(steps.take(i), start),
        #[trigger] steps[i],
        scripts[from + i],
        deliveries[i],
    ) by {
        reveal(step_taken);
        let begin = end_of(steps.take(i), start);
        assert(step_taken(before, begin, steps[i], scripts[from + i], deliveries[i]));
        lemma_grown_keeps(before, after, begin, steps[i].resolved);
        lemma_grown_keeps(before, after, steps[i].resolved, steps[i].handled);
        assert(after.take(before.len() as int)[steps[i].handled] == before[steps[i].handled]);
    }
}

/// A request script that was resolved, whose request was answered, whose
/// handler was done with and behind which the engine was reset, was taken
/// through.
pub proof fn lemma_step_taken(
    at: Seq<Exchange>,
    resolved: Seq<Exchange>,
    handled: Seq<Exchange>,
    after: Seq<Exchange>,
    script: RequestScript<Unprocessed>,
    delivery: Delivery,
)
    requires
        ran(at, resolved, batch_of(request_scripts(script.request@))),
        batch_of(request_scripts(script.request@)).result(added(at, resolved)) is Ok,
        delivery.request == sent_request(
            processed_request(
                script.request@,
                batch_of(request_scripts(script.request@)).result(added(at, resolved))->Ok_0,
            ),
        ),
        delivery.outcome is Ok,
        ran(resolved, handled, conclusion(&script, delivery.outcome->Ok_0)),
        conclusion(&script, delivery.outcome->Ok_0).result(added(resolved, handled)) is Ok,
        grown(handled, after),
        handled.len() < after.len(),
        after[handled.len() as int].src == snapshot_script(),
    ensures
        step_taken(
            after,
            at.len() as int,
            Step {
                resolved: resolved.len() as int,
                handled: handled.len() as int,
                end: after.len() as int,
            },
            script,
            delivery,
        ),
{
    reveal(step_taken);
    lemma_grown_on(resolved, handled, after);
    lemma_grown_keeps(resolved, after, at.len() as int, resolved.len() as int);
    assert(resolved.subrange(at.len() as int, resolved.len() as int) =~= added(at, resolved));
    lemma_grown_keeps(handled, after, resolved.len() as int, handled.len() as int);
    assert(handled.subrange(resolved.len() as int, handled.len() as int) =~= added(
        resolved,
        handled,
    ));
}

/// What the trail and the record of the sender show of the request scripts
/// that were taken through, they show when both have gone on.
pub proof fn lemma_run_goes_on(
    scripts: Seq<RequestScript<Unprocessed>>,
    done: nat,
    start: Seq<Exchange>,
    before: Seq<Exchange>,
    after: Seq<Exchange>,
    sent_start: Seq<Delivery>,
    sent_before: Seq<Delivery>,
    sent_after: Seq<Delivery>,
    steps: Seq<Step>,
)
    requires
        grown(before, after),
        sent_start.len() <= sent_before.len() <= sent_after.len(),
        sent_after.take(sent_before.len() as int) == sent_before,
        taken_through(
            before,
            start.len() as int,
            steps,
            scripts,
            done as int,
            sent_before.skip(sent_start.len() as int),
        ),
    ensures
        taken_through(
            after,
            start.len() as int,
            steps,
            scripts,
            done as int,
            sent_after.skip(sent_start.len() as int),
        ),
{
    let deliveries = sent_before.skip(sent_start.len() as int);
    let longer = sent_after.skip(sent_start.len() as int);
    lemma_steps_stay(before, after, start.len() as int, steps, scripts, done as int, deliveries);
    assert forall|i: int| 0 <= i < steps.len() implies step_taken(
        after,
        end_of(steps.take(i), start.len() as int),
        #[trigger] steps[i],
        scripts[done + i],
        longer[i],
    ) by {
        assert(sent_after.take(sent_before.len() as int)[sent_start.len() + i]
            == sent_before[sent_start.len() + i]);
        assert(longer[i] == deliveries[i]);
    }
}

/// One more request script that was taken through, behind those that the
/// trail shows, makes one more step.
pub proof fn lemma_run_taken_on(
    scripts: Seq<RequestScript<Unprocessed>>,
    done: nat,
    start: Seq<Exchange>,
    trail: Seq<Exchange>,
    sent_start: Seq<Delivery>,
    sent: Seq<Delivery>,
    steps: Seq<Step>,
    step: Step,
)
    requires
        sent.len() == sent_start.len() + steps.len() + 1,
        done + steps.len() < scripts.len(),
        taken_through(
            trail,
            start.len() as int,
            steps,
            scripts,
            done as int,
            sent.skip(sent_start.len() as int),
        ),
        step_taken(
            trail,
            end_of(steps, start.len() as int),
            step,
            scripts[(done + steps.len()) as int],
            sent.last(),
        ),
    ensures
        taken_through(
            trail,
            start.len() as int,
            steps.push(step),
            scripts,
            done as int,
            sent.skip(sent_start.len() as int),
        ),
        end_of(steps.push(step), start.len() as int) == step.end,
{
    let longer = steps.push(step);
    let deliveries = sent.skip(sent_start.len() as int);
    assert forall|i: int| 0 <= i < longer.len() implies step_taken(
        trail,
        end_of(longer.take(i), start.len() as int),
        #[trigger] longer[i],
        scripts[done + i],
        deliveries[i],
    ) by {
        if i < steps.len() {
            assert(longer.take(i) =~= steps.take(i));
            assert(longer[i] == steps[i]);
        } else {
            assert(longer.take(i) =~= steps);
            assert(deliveries[i] == sent.last());
        }
    }
}

impl<'a, E: ScriptEngine> Runtime<'a, E> {
    /// The request scripts of the run, in order.
    pub closed spec fn scripts(&self) -> Seq<RequestScript<Unprocessed>> {
        targets(self.scripts@)
    }

    /// How many of the request scripts are done with.
    pub closed spec fn done(&self) -> nat {
        self.done as nat
    }

    /// Whether a request is out and its response has not come back.
    pub closed spec fn awaiting(&self) -> bool {
        self.awaiting
    }

    /// What the engine of the run has evaluated.
    pub closed spec fn trail(&self) -> Seq<Exchange> {
        self.engine.trail()
    }

    /// How the resets of the engine of the run have ended.
    pub closed spec fn resets(&self) -> Seq<Result<(), ErrorView>> {
        self.engine.resets()
    }

    /// Whether the run is at a response: a request is out, and it is that of
    /// a request script of the run.
    pub open spec fn at_response(&self) -> bool {
        self.awaiting() && self.done() < self.scripts().len()
    }

    /// A run on `engine` of the request scripts of `file` that are chosen
    /// by `offset` and `all`.
    pub fn new(engine: E, file: &'a File, offset: usize, all: bool) -> (result: Result<
        Runtime<'a, E>,
        NotFound,
    >)
        ensures
            match result {
                Ok(runtime) => {
                    &&& runtime.scripts() == selected(file.request_scripts@, offset, all)
                    &&& runtime.done() == 0
                    &&& !runtime.awaiting()
                    &&& runtime.trail() == engine.trail()
                    &&& runtime.resets() == engine.resets()
                    &&& all || runtime.scripts().len() > 0
                },
                Err(error) => !all && selected(file.request_scripts@, offset, all).len() == 0
                    && error.offset == offset,
            },
    {
        match file.request_scripts(offset, all) {
            Ok(scripts) => Ok(Runtime { engine, scripts, done: 0, awaiting: false }),
            Err(error) => Err(error),
        }
    }

    /// The next thing to do.
    ///
    /// While request scripts are left, the placeholders of the next one are
    /// resolved and its request is handed out; then the run waits for the
    /// response. When none is left, the snapshot of the engine is handed
    /// out. While a response is awaited there is no next thing to do.
    pub fn next(&mut self) -> (result: Result<Action, Error>)
        ensures
            final(self).scripts() == old(self).scripts(),
            final(self).done() == old(self).done(),
            final(self).resets() == old(self).resets(),
            grown(old(self).trail(), final(self).trail()),
            old(self).awaiting() ==> {
                &&& result is Err
                &&& result->Err_0@ == out_of_turn()
                &&& final(self).trail() == old(self).trail()
                &&& final(self).awaiting()
            },
            !old(self).awaiting() && old(self).done() < old(self).scripts().len() ==> {
                let request = old(self).scripts()[old(self).done() as int].request@;
                &&& ran(old(self).trail(), final(self).trail(), batch_of(request_scripts(request)))
                &&& match batch_of(request_scripts(request)).result(
                    added(old(self).trail(), final(self).trail()),
                ) {
                    Ok(values) => {
                        &&& result matches Ok(Action::Send(sent))
                        &&& result->Ok_0->Send_0@ == sent_request(
                            processed_request(request, values),
                        )
                        &&& final(self).awaiting()
                    },
                    Err(error) => {
                        &&& result is Err
                        &&& result->Err_0@ == error
                        &&& !final(self).awaiting()
                    },
                }
            },
            !old(self).awaiting() && old(self).done() >= old(self).scripts().len() ==> {
                &&& !final(self).awaiting()
                &&& final(self).trail() == old(self).trail().push(
                    snapshot_exchange(
                        match result {
                            Ok(Action::Finish(snapshot)) => Ok(snapshot@),
                            Ok(Action::Send(_)) => Ok(Seq::empty()),
                            Err(error) => Err(error@),
                        },
                    ),
                )
                &&& result matches Ok(action) ==> action is Finish
            },
    {
        if self.awaiting {
            assert(self.trail().take(self.trail().len() as int) =~= self.trail());
            return Err(out_of_turn_error());
        }
        if self.done < self.scripts.len() {
            let script = self.scripts[self.done];
            match process(&mut self.engine, &script.request) {
                Ok(request) => {
                    self.awaiting = true;
                    Ok(Action::Send(request))
                },
                Err(error) => Err(error),
            }
        } else {
            let ghost before = self.trail();
            let result = match self.engine.snapshot() {
                Ok(snapshot) => Ok(Action::Finish(snapshot)),
                Err(error) => Err(error),
            };
            assert(self.trail().take(before.len() as int) =~= before);
            result
        }
    }

    /// Takes the response to the request that is out.
    ///
    /// The handler of the request script, where it has one, is run on the
    /// response. A failure of the handler is the result, and keeps the scope
    /// as it is. Else the engine is reset, and how the reset ends is the
    /// result: after a reset that succeeds the request script is done with,
    /// and no request is out; after one that fails the run stays where it
    /// is. Without a request that is out there is nothing to respond to.
    pub fn respond(&mut self, response: &Response) -> (result: Result<(), Error>)
        ensures
            final(self).scripts() == old(self).scripts(),
            grown(old(self).trail(), final(self).trail()),
            !old(self).at_response() ==> {
                &&& result is Err
                &&& result->Err_0@ == out_of_turn()
                &&& final(self).trail() == old(self).trail()
                &&& final(self).resets() == old(self).resets()
            },
            old(self).at_response() ==> exists|handled: Seq<Exchange>| #[trigger]
                responded(
                    &old(self).scripts()[old(self).done() as int],
                    response@,
                    old(self).trail(),
                    handled,
                    final(self).trail(),
                    old(self).resets(),
                    final(self).resets(),
                    reset_outcome(result),
                ),
            match result {
                Ok(_) => final(self).done() == old(self).done() + 1 && !final(self).awaiting(),
                Err(_) => final(self).done() == old(self).done() && final(self).awaiting()
                    == old(self).awaiting(),
            },
    {
        let ghost before = self.trail();
        if !self.awaiting || self.done >= self.scripts.len() {
            assert(before.take(before.len() as int) =~= before);
            return Err(out_of_turn_error());
        }
        let script = self.scripts[self.done];
        assert(*script == old(self).scripts()[old(self).done() as int]);
        match &script.handler {
            Some(handler) => {
                let source = Script {
                    selection: handler.selection.clone(),
                    src: handler.script.as_str(),
                };
                assert(handling_batch(source@, response@) == conclusion(script, response@));
                match handle(&mut self.engine, &source, response) {
                    Ok(_) => {},
                    Err(error) => {
                        proof {
                            let handled = self.trail();
                            assert(handled.take(handled.len() as int) =~= handled);
                            assert(responded(
                                script,
                                response@,
                                before,
                                handled,
                                self.trail(),
                                old(self).resets(),
                                self.resets(),
                                Err(error@),
                            ));
                        }
                        return Err(error);
                    },
                }
            },
            None => {
                proof {
                    assert(added(before, before) =~= Seq::empty());
                    assert(before.take(before.len() as int) =~= before);
                }
            },
        }
        let ghost handled = self.trail();
        assert(ran(before, handled, conclusion(script, response@)));
        let reset = self.engine.reset();
        proof {
            assert(self.trail().take(before.len() as int) =~= handled.take(before.len() as int));
        }
        let result = self.settle(reset);
        assert(responded(
            script,
            response@,
            before,
            handled,
            self.trail(),
            old(self).resets(),
            self.resets(),
            reset_outcome(result),
        ));
        result
    }

    /// Takes how the reset behind a response ended. After a reset that
    /// succeeded the request script is done with, and no request is out;
    /// one that failed leaves the run where it is, and its error is the
    /// result.
    fn settle(&mut self, reset: Result<(), Error>) -> (result: Result<(), Error>)
        requires
            old(self).done() < old(self).scripts().len(),
        ensures
            result == reset,
            final(self).scripts() == old(self).scripts(),
            final(self).trail() == old(self).trail(),
            final(self).resets() == old(self).resets(),
            match reset {
                Ok(_) => final(self).done() == old(self).done() + 1 && !final(self).awaiting(),
                Err(_) => final(self).done() == old(self).done() && final(self).awaiting()
                    == old(self).awaiting(),
            },
    {
        if reset.is_ok() {
            assert(self.done < self.scripts.len());
            self.done = self.done + 1;
            self.awaiting = false;
        }
        reset
    }

    /// Takes the next request script through, or takes the snapshot where
    /// none is left.
    fn take_next<C: HttpClient>(&mut self, sender: &mut Sender<C>) -> (result: Result<
        Option<String>,
        Failure,
    >)
        requires
            !old(self).awaiting(),
        ensures
            final(self).scripts() == old(self).scripts(),
            grown(old(self).trail(), final(self).trail()),
            old(sender).sent().len() <= final(sender).sent().len(),
            final(sender).sent().take(old(sender).sent().len() as int) == old(sender).sent(),
            old(self).resets().len() <= final(self).resets().len(),
            final(self).resets().take(old(self).resets().len() as int) == old(self).resets(),
            match result {
                Ok(None) => {
                    &&& old(self).done() < old(self).scripts().len()
                    &&& final(self).done() == old(self).done() + 1
                    &&& !final(self).awaiting()
                    &&& final(self).resets() == old(self).resets().push(Ok(()))
                    &&& final(sender).sent().len() == old(sender).sent().len() + 1
                    &&& exists|step: Step|
                        {
                            &&& #[trigger] step_taken(
                                final(self).trail(),
                                old(self).trail().len() as int,
                                step,
                                old(self).scripts()[old(self).done() as int],
                                final(sender).sent().last(),
                            )
                            &&& step.end == final(self).trail().len()
                        }
                },
                Ok(Some(snapshot)) => {
                    &&& final(self).done() == old(self).done()
                    &&& final(self).done() >= final(self).scripts().len()
                    &&& !final(self).awaiting()
                    &&& final(self).resets() == old(self).resets()
                    &&& final(sender).sent() == old(sender).sent()
                    &&& final(self).trail() == old(self).trail().push(
                        snapshot_exchange(Ok::<Seq<char>, ErrorView>(snapshot@)),
                    )
                },
                Err(Failure::Client(cause)) => {
                    let asked = batch_of(
                        request_scripts(old(self).scripts()[old(self).done() as int].request@),
                    );
                    let answers = added(old(self).trail(), final(self).trail());
                    &&& final(self).done() == old(self).done()
                    &&& final(self).done() < final(self).scripts().len()
                    &&& final(self).awaiting()
                    &&& final(self).resets() == old(self).resets()
                    &&& final(sender).sent().len() == old(sender).sent().len() + 1
                    &&& asked.leaves(answers)
                    &&& asked.result(answers) is Ok
                    &&& final(sender).sent().last().request == sent_request(
                        processed_request(
                            old(self).scripts()[old(self).done() as int].request@,
                            asked.result(answers)->Ok_0,
                        ),
                    )
                    &&& final(sender).sent().last().outcome == Err::<ResponseView, Seq<char>>(
                        cause@,
                    )
                },
                Err(Failure::Engine(error)) => {
                    &&& final(self).done() == old(self).done()
                    &&& final(sender).sent().len() <= old(sender).sent().len() + 1
                    &&& ended_by_engine(
                        next_of(old(self).scripts(), old(self).done()),
                        (old(self).trail(), final(self).trail()),
                        (old(self).resets(), final(self).resets()),
                        final(sender).sent().skip(old(sender).sent().len() as int),
                        error@,
                    )
                },
            },
    {
        let ghost at = self.trail();
        let ghost before = sender.sent();
        let ghost so_far = self.resets();
        proof {
            assert(so_far.take(so_far.len() as int) =~= so_far);
            assert(before.take(before.len() as int) =~= before);
        }
        let request = match self.next() {
            Ok(Action::Send(request)) => request,
            Ok(Action::Finish(snapshot)) => {
                return Ok(Some(snapshot));
            },
            Err(error) => {
                assert(sender.sent().skip(before.len() as int).len() == 0);
                assert(ended_by_engine(
                    next_of(old(self).scripts(), old(self).done()),
                    (at, self.trail()),
                    (so_far, self.resets()),
                    sender.sent().skip(before.len() as int),
                    error@,
                ));
                return Err(Failure::Engine(error));
            },
        };
        let ghost resolved = self.trail();
        let ghost script = self.scripts()[self.done() as int];
        let answer = sender.send(&request);
        let ghost delivery = Delivery {
            request: request@,
            outcome: crate::client::delivered(answer),
        };
        assert(sender.sent().take(before.len() as int) =~= before);
        let response = match answer {
            Ok(response) => response,
            Err(cause) => {
                return Err(Failure::Client(cause));
            },
        };
        let outcome = self.respond(&response);
        let ghost after = self.trail();
        let ghost handled = choose|handled: Seq<Exchange>| #[trigger]
            responded(
                &script,
                response@,
                resolved,
                handled,
                after,
                so_far,
                self.resets(),
                reset_outcome(outcome),
            );
        proof {
            lemma_grown_on(at, resolved, after);
            assert(self.resets().take(so_far.len() as int) =~= so_far);
        }
        match outcome {
            Ok(_) => {
                proof {
                    assert(reset_outcome(outcome) == Ok::<(), ErrorView>(()));
                    lemma_step_taken(at, resolved, handled, after, script, delivery);
                    assert(self.resets() == so_far.push(Ok(())));
                    assert(sender.sent().last() == delivery);
                }
                Ok(None)
            },
            Err(error) => {
                proof {
                    let deliveries = sender.sent().skip(before.len() as int);
                    assert(deliveries.len() == 1);
                    assert(deliveries[0] == delivery);
                    assert(failed_at_response(
                        at,
                        resolved,
                        handled,
                        after,
                        script,
                        delivery,
                        so_far,
                        self.resets(),
                        error@,
                    ));
                    assert(failed_at_response(
                        at,
                        resolved,
                        handled,
                        after,
                        script,
                        deliveries[0],
                        so_far,
                        self.resets(),
                        error@,
                    ));
                    assert(failed_behind_sending(
                        at,
                        after,
                        script,
                        deliveries[0],
                        so_far,
                        self.resets(),
                        error@,
                    ));
                    assert(next_of(old(self).scripts(), old(self).done()) == Some(script));
                    assert(ended_by_engine(
                        next_of(old(self).scripts(), old(self).done()),
                        (at, after),
                        (so_far, self.resets()),
                        deliveries,
                        error@,
                    ));
                }
                Err(Failure::Engine(error))
            },
        }
    }

    /// Takes the run to its end with a sender for the requests.
    ///
    /// Each request script that is left has its request resolved and sent;
    /// the response is handed to its handler, and the engine is reset. The
    /// first step that fails ends the run. A run that comes to its end
    /// hands out the snapshot. While a request is out the run cannot be
    /// taken on, and nothing is done.
    pub fn execute<C: HttpClient>(&mut self, sender: &mut Sender<C>) -> (result: Result<
        String,
        Failure,
    >)
        ensures
            final(self).scripts() == old(self).scripts(),
            grown(old(self).trail(), final(self).trail()),
            old(sender).sent().len() <= final(sender).sent().len(),
            final(sender).sent().take(old(sender).sent().len() as int) == old(sender).sent(),
            old(self).awaiting() ==> {
                &&& result matches Err(Failure::Engine(error))
                &&& result->Err_0->Engine_0@ == out_of_turn()
                &&& final(self).trail() == old(self).trail()
                &&& final(self).resets() == old(self).resets()
                &&& final(self).done() == old(self).done()
                &&& final(self).awaiting()
                &&& final(sender).sent() == old(sender).sent()
            },
            !old(self).awaiting() ==> exists|steps: Seq<Step>| #[trigger]
                executed(
                    old(self).scripts(),
                    (old(self).done(), final(self).done()),
                    final(self).awaiting(),
                    (old(self).trail(), final(self).trail()),
                    (old(self).resets(), final(self).resets()),
                    (old(sender).sent(), final(sender).sent()),
                    steps,
                    result,
                ),
    {
        let ghost trail0 = self.trail();
        let ghost resets0 = self.resets();
        let ghost done0 = self.done();
        let ghost sent0 = sender.sent();
        let ghost scripts = self.scripts();
        proof {
            assert(trail0.take(trail0.len() as int) =~= trail0);
            assert(sent0.take(sent0.len() as int) =~= sent0);
        }
        if self.awaiting {
            return Err(Failure::Engine(out_of_turn_error()));
        }
        let ghost mut steps: Seq<Step> = Seq::empty();
        proof {
            assert(resets0 + successes(0) =~= resets0);
        }
        loop
            invariant
                !old(self).awaiting(),
                self.scripts() == scripts,
                scripts == old(self).scripts(),
                trail0 == old(self).trail(),
                resets0 == old(self).resets(),
                done0 == old(self).done(),
                sent0 == old(sender).sent(),
                !self.awaiting(),
                grown(trail0, self.trail()),
                self.done() == done0 + steps.len(),
                sender.sent().len() == sent0.len() + steps.len(),
                sender.sent().take(sent0.len() as int) == sent0,
                taken_through(
                    self.trail(),
                    trail0.len() as int,
                    steps,
                    scripts,
                    done0 as int,
                    sender.sent().skip(sent0.len() as int),
                ),
                end_of(steps, trail0.len() as int) == self.trail().len(),
                self.resets() == resets0 + successes(steps.len()),
            decreases scripts.len() + 1 - self.done(),
        {
            let ghost at = self.trail();
            let ghost before = sender.sent();
            let outcome = self.take_next(sender);
            proof {
                lemma_grown_on(trail0, at, self.trail());
                lemma_run_goes_on(
                    scripts,
                    done0,
                    trail0,
                    at,
                    self.trail(),
                    sent0,
                    before,
                    sender.sent(),
                    steps,
                );
                assert(self.resets().take((resets0.len() + steps.len()) as int) =~= resets0
                    + successes(steps.len()));
            }
            match outcome {
                Ok(None) => {
                    proof {
                        let step = choose|step: Step|
                            {
                                &&& #[trigger] step_taken(
                                    self.trail(),
                                    at.len() as int,
                                    step,
                                    scripts[(done0 + steps.len()) as int],
                                    sender.sent().last(),
                                )
                                &&& step.end == self.trail().len()
                            };
                        lemma_run_taken_on(
                            scripts,
                            done0,
                            trail0,
                            self.trail(),
                            sent0,
                            sender.sent(),
                            steps,
                            step,
                        );
                        steps = steps.push(step);
                        assert(self.resets() =~= resets0 + successes(steps.len()));
                    }
                },
                Ok(Some(snapshot)) => {
                    proof {
                        assert(self.trail().take(at.len() as int) =~= at);
                        assert(executed(
                            scripts,
                            (done0, self.done()),
                            self.awaiting(),
                            (trail0, self.trail()),
                            (resets0, self.resets()),
                            (sent0, sender.sent()),
                            steps,
                            Ok(snapshot),
                        ));
                    }
                    return Ok(snapshot);
                },
                Err(failure) => {
                    proof {
                        assert(self.trail().skip(at.len() as int) =~= added(at, self.trail()));
                        assert(sender.sent().skip(sent0.len() as int).len() == sender.sent().len()
                            - sent0.len());
                        if failure is Client {
                            assert(sender.sent().skip(sent0.len() as int).last()
                                == sender.sent().last());
                        } else {
                            assert(self.trail().take(at.len() as int) =~= at);
                            assert(sender.sent().skip(sent0.len() as int).skip(
                                steps.len() as int,
                            ) =~= sender.sent().skip(before.len() as int));
                        }
                        assert(executed(
                            scripts,
                            (done0, self.done()),
                            self.awaiting(),
                            (trail0, self.trail()),
                            (resets0, self.resets()),
                            (sent0, sender.sent()),
                            steps,
                            Err(failure),
                        ));
                    }
                    return Err(failure);
                },
            }
        }
    }

    /// Gives the engine back.
    pub fn into_engine(self) -> (engine: E)
        ensures
            engine.trail() == self.trail(),
            engine.resets() == self.resets(),
    {
        self.engine
    }
}

} // verus!
