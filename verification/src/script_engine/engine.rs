//! The engine of the library: an interpreter, and the scripts that make a
//! scope of it.
//!
//! The scope is made anew on every reset, with an interpreter that has
//! evaluated nothing yet. Into the new scope go the variables of the chosen
//! environment, the members of the snapshot, and the script that offers
//! `client.global`; nothing else of the old scope is taken over.

use crate::model::{Selection, SelectionView};
use crate::script_engine::json::{json_of, pair_views, read_json, Json, JsonView};
use crate::script_engine::session::{all_interpreted, interpreted, Interpreter, Session};
use crate::script_engine::{
    added, declaration_batch, declarations, exchange_of, failed, outcome_of, run_batch,
    snapshot_exchange,
    snapshot_script, Batch, BatchView, Error, ErrorKind, ErrorView, Exchange, Scope, Script,
    ScriptEngine, Source, SourceView,
};
use crate::text::same_text;
use vstd::prelude::*;
use vstd::string::StringExecFns;

verus! {

/// The script that offers `client.global`: a store whose `set` and `get`
/// work on the snapshot.
pub open spec fn init_script() -> Seq<char> {
    "var client = { global: { set: function (key, value) { _snapshot[key] = value; }, get: function (key) { return _snapshot[key]; } } };"@
}

/// The script that keeps the environment file and the chosen environment.
pub open spec fn environment_script(env_script: Seq<char>, env: Seq<char>) -> Seq<char> {
    "var _env_file = "@ + env_script + ";\nvar _env = _env_file['"@ + env + "'];"@
}

/// The script that binds the snapshot.
pub open spec fn snapshot_binding(snapshot: Seq<char>) -> Seq<char> {
    "var _snapshot = "@ + snapshot + ";"@
}

/// The error for a text that is no JSON.
pub open spec fn initialization_failure(message: Seq<char>) -> ErrorView {
    ErrorView { kind: ErrorKind::Initialization, message, selection: SelectionView::none() }
}

/// The value of the first member with the given name.
pub open spec fn member_of(members: Seq<(Seq<char>, Seq<char>)>, name: Seq<char>) -> Option<
    Seq<char>,
>
    decreases members.len(),
{
    if members.len() == 0 {
        None
    } else if members[0].0 == name {
        Some(members[0].1)
    } else {
        member_of(members.drop_first(), name)
    }
}

/// What the chosen environment puts into a new scope: where the environment
/// file is an object with a member of the environment's name, the variables
/// of that member and the script that keeps the file; else nothing.
pub open spec fn environment_batch(
    environment: JsonView,
    env_script: Seq<char>,
    env: Seq<char>,
) -> BatchView {
    match environment {
        JsonView::Object { members, .. } => match member_of(members, env) {
            Some(variables) => {
                let declared = declarations(json_of(variables));
                if declared.failure is Some {
                    declared
                } else {
                    BatchView {
                        scripts: declared.scripts.push(
                            SourceView::internal(environment_script(env_script, env)),
                        ),
                        failure: None,
                    }
                }
            },
            None => BatchView { scripts: Seq::empty(), failure: None },
        },
        _ => BatchView { scripts: Seq::empty(), failure: None },
    }
}

/// What the snapshot puts into a new scope: its members as variables, the
/// script that binds it, and the script that offers `client.global`.
pub open spec fn snapshot_batch(snapshot: JsonView) -> BatchView {
    match snapshot {
        JsonView::Invalid { message } => BatchView {
            scripts: Seq::empty(),
            failure: Some(initialization_failure(message)),
        },
        JsonView::Other { .. } => declarations(snapshot),
        JsonView::Object { text, .. } => BatchView {
            scripts: declarations(snapshot).scripts.push(
                SourceView::internal(snapshot_binding(text)),
            ).push(SourceView::internal(init_script())),
            failure: None,
        },
    }
}

/// One batch after another: the scripts of both, and the failure of the
/// first where it has one, else that of the second. A first batch with a
/// failure keeps the second from running.
pub open spec fn sequence(first: BatchView, second: BatchView) -> BatchView {
    if first.failure is Some {
        first
    } else {
        BatchView { scripts: first.scripts + second.scripts, failure: second.failure }
    }
}

/// Everything that makes a new scope, in order: the environment, then the
/// snapshot. An environment file that is no JSON ends it before it begins.
pub open spec fn bootstrap(env_script: Seq<char>, env: Seq<char>, snapshot: Seq<char>) -> BatchView {
    match json_of(env_script) {
        JsonView::Invalid { message } => BatchView {
            scripts: Seq::empty(),
            failure: Some(initialization_failure(message)),
        },
        environment => sequence(
            environment_batch(environment, env_script, env),
            snapshot_batch(json_of(snapshot)),
        ),
    }
}

fn initialization_error(message: &String) -> (error: Error)
    ensures
        error@ == initialization_failure(message@),
{
    Error {
        kind: ErrorKind::Initialization,
        message: message.clone(),
        selection: Selection::none(),
    }
}

/// The value of the first member with the given name.
fn find_member<'a>(members: &'a Vec<(String, String)>, name: &str) -> (found: Option<&'a String>)
    ensures
        match member_of(pair_views(members@), name@) {
            Some(value) => found is Some && found->Some_0@ == value,
            None => found is None,
        },
{
    let ghost pairs = pair_views(members@);
    assert(pairs.skip(0) =~= pairs);
    let mut i: usize = 0;
    while i < members.len()
        invariant
            i <= members.len(),
            pairs == pair_views(members@),
            member_of(pairs.skip(i as int), name@) == member_of(pairs, name@),
        decreases members.len() - i,
    {
        proof {
            assert(pairs.skip(i as int).drop_first() =~= pairs.skip(i + 1));
        }
        if same_text(members[i].0.as_str(), name) {
            return Some(&members[i].1);
        }
        i += 1;
    }
    None
}

/// The scripts that the chosen environment puts into a new scope, for an
/// environment file that has been read.
pub fn environment_sources(environment: &Json, env_script: &str, env: &str) -> (batch: Batch)
    ensures
        batch@ == environment_batch(environment@, env_script@, env@),
{
    let empty = Batch { scripts: Vec::new(), failure: None };
    assert(empty@.scripts =~= Seq::empty());
    match environment {
        Json::Object { text: _, members } => match find_member(members, env) {
            Some(variables) => {
                let mut batch = declaration_batch(&read_json(variables.as_str()));
                if batch.failure.is_some() {
                    return batch;
                }
                let ghost declared = batch@;
                let mut script = "var _env_file = ".to_owned();
                script.append(env_script);
                script.append(";\nvar _env = _env_file['");
                script.append(env);
                script.append("'];");
                batch.scripts.push(Source::internal(script));
                assert(batch@.scripts =~= declared.scripts.push(
                    SourceView::internal(environment_script(env_script@, env@)),
                ));
                batch
            },
            None => empty,
        },
        _ => empty,
    }
}

/// The scripts that the snapshot puts into a new scope, for a snapshot that
/// has been read.
pub fn snapshot_sources(snapshot: &Json) -> (batch: Batch)
    ensures
        batch@ == snapshot_batch(snapshot@),
{
    match snapshot {
        Json::Invalid { message } => {
            let batch = Batch { scripts: Vec::new(), failure: Some(initialization_error(message)) };
            assert(batch@.scripts =~= Seq::empty());
            batch
        },
        Json::Other { text: _ } => declaration_batch(snapshot),
        Json::Object { text, members: _ } => {
            let mut batch = declaration_batch(snapshot);
            let ghost declared = batch@;
            let mut script = "var _snapshot = ".to_owned();
            script.append(text.as_str());
            script.append(";");
            batch.scripts.push(Source::internal(script));
            batch.scripts.push(Source::internal(init_source().to_owned()));
            assert(batch@.scripts =~= declared.scripts.push(
                SourceView::internal(snapshot_binding(text@)),
            ).push(SourceView::internal(init_script())));
            batch
        },
    }
}

fn init_source() -> (src: &'static str)
    ensures
        src@ == init_script(),
{
    "var client = { global: { set: function (key, value) { _snapshot[key] = value; }, get: function (key) { return _snapshot[key]; } } };"
}

fn snapshot_source() -> (src: &'static str)
    ensures
        src@ == snapshot_script(),
{
    "JSON.stringify(_snapshot)"
}

/// The scripts that make a new scope from an environment file, the name of
/// an environment and a snapshot.
pub fn bootstrap_batch(env_script: &str, env: &str, snapshot: &str) -> (batch: Batch)
    ensures
        batch@ == bootstrap(env_script@, env@, snapshot@),
{
    let environment = read_json(env_script);
    if let Json::Invalid { message } = &environment {
        let batch = Batch { scripts: Vec::new(), failure: Some(initialization_error(message)) };
        assert(batch@.scripts =~= Seq::empty());
        return batch;
    }
    let mut first = environment_sources(&environment, env_script, env);
    if first.failure.is_some() {
        return first;
    }
    let ghost first_view = first@;
    let mut second = snapshot_sources(&read_json(snapshot));
    let ghost second_view = second@;
    first.scripts.append(&mut second.scripts);
    let batch = Batch { scripts: first.scripts, failure: second.failure };
    assert(batch@.scripts =~= first_view.scripts + second_view.scripts);
    batch
}

/// Whether `exchanges` is what making a scope from the given environment
/// and snapshot leaves behind when it succeeds: each script of the
/// bootstrap, evaluated in order, none of them failing.
pub open spec fn booted(
    exchanges: Seq<Exchange>,
    env_script: Seq<char>,
    env: Seq<char>,
    snapshot: Seq<char>,
) -> bool {
    let batch = bootstrap(env_script, env, snapshot);
    &&& batch.failure is None
    &&& batch.leaves(exchanges)
    &&& exchanges.len() == batch.scripts.len()
    &&& !failed(exchanges)
    &&& all_interpreted(exchanges)
}

/// Whether `error` ends the bootstrap when `exchanges` is what its scripts
/// left behind: the exchanges are such as the interpreter gives, and the
/// error is that of the script that failed, or else the bootstrap's own
/// failure.
pub open spec fn fails_with(
    exchanges: Seq<Exchange>,
    error: ErrorView,
    env_script: Seq<char>,
    env: Seq<char>,
    snapshot: Seq<char>,
) -> bool {
    let batch = bootstrap(env_script, env, snapshot);
    &&& batch.leaves(exchanges)
    &&& all_interpreted(exchanges)
    &&& batch.result(exchanges) == Err::<Seq<Seq<char>>, ErrorView>(error)
}

/// Whether `error` is what making a scope from the given environment and
/// snapshot gives when it fails. It is the failure of the bootstrap where
/// each of its scripts succeeds: a text that is no JSON, or a JSON value
/// that is no object where variables are to be declared. Else it is the
/// error of the first script that fails: the syntax error of a script that
/// the interpreter refuses to read, or a runtime error.
pub open spec fn boot_failure(
    error: ErrorView,
    env_script: Seq<char>,
    env: Seq<char>,
    snapshot: Seq<char>,
) -> bool {
    exists|exchanges: Seq<Exchange>| #[trigger]
        fails_with(exchanges, error, env_script, env, snapshot)
}

/// The kinds of error with which making a scope can fail.
pub open spec fn boot_failure_kind(kind: ErrorKind) -> bool {
    kind == ErrorKind::Initialization || kind == ErrorKind::Declaration || kind
        == ErrorKind::Syntax || kind == ErrorKind::Runtime
}

/// Making a scope fails with an error of one of four kinds.
pub proof fn lemma_boot_failure(
    error: ErrorView,
    env_script: Seq<char>,
    env: Seq<char>,
    snapshot: Seq<char>,
)
    requires
        boot_failure(error, env_script, env, snapshot),
    ensures
        boot_failure_kind(error.kind),
{
    let exchanges = choose|exchanges: Seq<Exchange>| #[trigger]
        fails_with(exchanges, error, env_script, env, snapshot);
    if failed(exchanges) {
        assert(interpreted(exchanges[exchanges.len() - 1]));
    }
}

/// A script engine on an interpreter.
pub struct Engine<I: Interpreter> {
    session: Session<I>,
    kind: I,
    env_script: String,
    env: String,
    past: Ghost<Seq<Exchange>>,
    resets: Ghost<Seq<Result<(), ErrorView>>>,
}

impl<I: Interpreter> Engine<I> {
    /// The environment file that every scope of the engine is made from.
    pub closed spec fn env_script(&self) -> Seq<char> {
        self.env_script@
    }

    /// The name of the environment that every scope of the engine is made
    /// from.
    pub closed spec fn env(&self) -> Seq<char> {
        self.env@
    }

    /// What the scope of the engine has evaluated: all that the interpreter
    /// that serves now has been handed since it was made.
    pub closed spec fn scope(&self) -> Seq<Exchange> {
        self.session.seen()
    }

    /// What the scopes that the engine has given up had evaluated.
    pub closed spec fn past(&self) -> Seq<Exchange> {
        self.past@
    }

    /// How the resets of the engine have ended.
    pub closed spec fn reset_outcomes(&self) -> Seq<Result<(), ErrorView>> {
        self.resets@
    }

    /// A new scope: an interpreter that has evaluated nothing but the
    /// bootstrap.
    fn boot(kind: &I, env_script: &str, env: &str, snapshot: &str) -> (result: Result<
        Session<I>,
        Error,
    >)
        ensures
            match result {
                Ok(session) => booted(session.seen(), env_script@, env@, snapshot@),
                Err(error) => boot_failure(error@, env_script@, env@, snapshot@)
                    && boot_failure_kind(error@.kind),
            },
    {
        let batch = bootstrap_batch(env_script, env, snapshot);
        let mut session = Session::open(kind);
        match run_batch(&mut session, &batch) {
            Ok(_) => {
                assert(session.seen() =~= added(Seq::empty(), session.trail()));
                Ok(session)
            },
            Err(error) => {
                proof {
                    assert(session.seen() =~= added(Seq::empty(), session.trail()));
                    assert(fails_with(session.seen(), error@, env_script@, env@, snapshot@));
                    lemma_boot_failure(error@, env_script@, env@, snapshot@);
                }
                Err(error)
            },
        }
    }

    /// An engine whose scope is made from the environment of the given name
    /// in the environment file, and from the snapshot. The interpreter that
    /// is handed over stands for its kind: the scopes of the engine are
    /// served by new interpreters of that kind.
    ///
    /// Both texts have to be JSON. The variables of the environment are
    /// declared where the file is an object with a member of that name; the
    /// members of the snapshot, which has to be an object, are declared
    /// too. A failure of one of the scripts that do so is the result.
    pub fn new(kind: I, env_script: &str, env: &str, snapshot_script: &str) -> (result: Result<
        Engine<I>,
        Error,
    >)
        ensures
            match result {
                Ok(engine) => {
                    &&& engine.env_script() == env_script@
                    &&& engine.env() == env@
                    &&& engine.resets().len() == 0
                    &&& engine.past().len() == 0
                    &&& engine.trail() == engine.scope()
                    &&& booted(engine.scope(), env_script@, env@, snapshot_script@)
                },
                Err(error) => boot_failure(error@, env_script@, env@, snapshot_script@)
                    && boot_failure_kind(error@.kind),
            },
    {
        match Engine::boot(&kind, env_script, env, snapshot_script) {
            Ok(session) => {
                let engine = Engine {
                    session,
                    kind,
                    env_script: env_script.to_owned(),
                    env: env.to_owned(),
                    past: Ghost(Seq::empty()),
                    resets: Ghost(Seq::empty()),
                };
                assert(engine.trail() =~= engine.scope());
                Ok(engine)
            },
            Err(error) => Err(error),
        }
    }
}

impl<I: Interpreter> Scope for Engine<I> {
    open spec fn trail(&self) -> Seq<Exchange> {
        self.past() + self.scope()
    }

    open spec fn resets(&self) -> Seq<Result<(), ErrorView>> {
        self.reset_outcomes()
    }

    open spec fn gives(exchange: Exchange) -> bool {
        interpreted(exchange)
    }

    /// Evaluates a script in the scope of the engine. A script that the
    /// interpreter refuses gives a syntax error with the interpreter's
    /// message; one that throws gives a runtime error with the text of what
    /// was thrown.
    fn execute_script(&mut self, script: &Script) -> (result: Result<String, Error>)
        ensures
            final(self).env_script() == old(self).env_script(),
            final(self).env() == old(self).env(),
            final(self).past() == old(self).past(),
            final(self).scope() == old(self).scope().push(exchange_of(script, result)),
            interpreted(exchange_of(script, result)),
    {
        let result = self.session.execute_script(script);
        assert(self.trail() =~= old(self).trail().push(exchange_of(script, result)));
        result
    }
}

impl<I: Interpreter> ScriptEngine for Engine<I> {
    /// Takes the snapshot of the scope and makes a new scope from it: an
    /// interpreter that has evaluated nothing, then the bootstrap of the
    /// environment that the engine was made with and of that snapshot, and
    /// nothing else. Where either fails, the scope stays as the snapshot
    /// script left it.
    fn reset(&mut self) -> (result: Result<(), Error>)
        ensures
            final(self).env_script() == old(self).env_script(),
            final(self).env() == old(self).env(),
            interpreted(final(self).trail()[old(self).trail().len() as int]),
            match final(self).trail()[old(self).trail().len() as int].outcome {
                Ok(snapshot) => match result {
                    Ok(_) => {
                        &&& final(self).past() == old(self).trail().push(
                            final(self).trail()[old(self).trail().len() as int],
                        )
                        &&& booted(
                            final(self).scope(),
                            old(self).env_script(),
                            old(self).env(),
                            snapshot,
                        )
                    },
                    Err(error) => {
                        &&& final(self).trail().len() == old(self).trail().len() + 1
                        &&& final(self).past() == old(self).past()
                        &&& boot_failure(error@, old(self).env_script(), old(self).env(), snapshot)
                        &&& boot_failure_kind(error@.kind)
                    },
                },
                Err(error) => {
                    &&& final(self).trail().len() == old(self).trail().len() + 1
                    &&& final(self).past() == old(self).past()
                    &&& result is Err
                    &&& result->Err_0@ == error
                },
            },
    {
        let ghost before = self.trail();
        let ghost resets = self.resets();
        let snapshot = match self.snapshot() {
            Ok(snapshot) => snapshot,
            Err(error) => {
                proof {
                    assert(self.trail().take(before.len() as int) =~= before);
                    self.resets@ = resets.push(Err(error@));
                }
                return Err(error);
            },
        };
        let ghost taken = self.trail();
        assert(taken.take(before.len() as int) =~= before);
        assert(taken[before.len() as int] == snapshot_exchange(
            Ok::<Seq<char>, ErrorView>(snapshot@),
        ));
        match Engine::boot(
            &self.kind,
            self.env_script.as_str(),
            self.env.as_str(),
            snapshot.as_str(),
        ) {
            Ok(session) => {
                self.session = session;
                proof {
                    self.past@ = taken;
                    self.resets@ = resets.push(Ok(()));
                    assert(self.trail().take(before.len() as int) =~= before);
                    assert(self.trail()[before.len() as int] == taken[before.len() as int]);
                    assert(self.past() =~= before.push(taken[before.len() as int]));
                }
                Ok(())
            },
            Err(error) => {
                proof {
                    self.resets@ = resets.push(Err(error@));
                }
                Err(error)
            },
        }
    }

    /// The store that outlasts the scope, as the scope's own
    /// `JSON.stringify` writes it.
    fn snapshot(&mut self) -> (result: Result<String, Error>)
        ensures
            final(self).env_script() == old(self).env_script(),
            final(self).env() == old(self).env(),
            final(self).past() == old(self).past(),
            final(self).scope() == old(self).scope().push(snapshot_exchange(outcome_of(result))),
            interpreted(snapshot_exchange(outcome_of(result))),
    {
        self.execute_script(&Script::internal_script(snapshot_source()))
    }
}

/// The engine of this library on the given kind of interpreter, made from
/// the environment and the snapshot.
pub fn create_script_engine<I: Interpreter>(
    kind: I,
    env_script: &str,
    env: &str,
    snapshot_script: &str,
) -> (result: Result<Engine<I>, Error>)
    ensures
        match result {
            Ok(engine) => {
                &&& engine.env_script() == env_script@
                &&& engine.env() == env@
                &&& engine.resets().len() == 0
                &&& engine.past().len() == 0
                &&& engine.trail() == engine.scope()
                &&& booted(engine.scope(), env_script@, env@, snapshot_script@)
            },
            Err(error) => boot_failure(error@, env_script@, env@, snapshot_script@)
                && boot_failure_kind(error@.kind),
        },
{
    Engine::new(kind, env_script, env, snapshot_script)
}

} // verus!
