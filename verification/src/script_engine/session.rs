//! The interpreter, and a record of what it has been handed.
//!
//! The library does not evaluate scripts itself. It hands each script to an
//! interpreter and takes what comes back. A session holds one interpreter
//! from the moment it is made, and keeps the record of all that it was
//! handed since.

use crate::model::SelectionView;
use crate::script_engine::{exchange_of, Error, ErrorKind, ErrorView, Exchange, Scope, Script};
use vstd::prelude::*;
use vstd::string::StringExecFns;

verus! {

/// What an interpreter answers to a script.
#[derive(Debug, PartialEq, Eq)]
pub enum Evaluation {
    /// The script was evaluated: its value as a text.
    Value(String),
    /// The script is no script: the interpreter could not read it, and says
    /// why.
    Refused(String),
    /// The script was read, and evaluating it failed: what was thrown, as a
    /// text.
    Thrown(String),
}

/// What evaluates scripts: a scope in which each script sees what the ones
/// before it left behind.
pub trait Interpreter: Sized {
    /// A new interpreter of the same kind, in whose scope nothing has been
    /// evaluated.
    fn fresh(&self) -> Self;

    /// Evaluates a script in the scope.
    fn evaluate(&mut self, src: &str) -> Evaluation;
}

/// The error for a script that the interpreter refuses to read.
pub open spec fn syntax_failure(message: Seq<char>, selection: SelectionView) -> ErrorView {
    ErrorView { kind: ErrorKind::Syntax, message: "ParsingError: "@ + message, selection }
}

/// The error for a script that the interpreter has read and that failed
/// when it ran, with the text of what was thrown.
pub open spec fn runtime_failure(thrown: Seq<char>, selection: SelectionView) -> ErrorView {
    ErrorView {
        kind: ErrorKind::Runtime,
        message: "Error executing expression: "@ + thrown,
        selection,
    }
}

/// The error for a script that failed: a syntax error where the interpreter
/// refused it, else a runtime error.
pub open spec fn failure(refused: bool, text: Seq<char>, selection: SelectionView) -> ErrorView {
    if refused {
        syntax_failure(text, selection)
    } else {
        runtime_failure(text, selection)
    }
}

/// What the engine makes of the answer of the interpreter to a script at
/// the given place.
pub open spec fn outcome_for(evaluation: Evaluation, selection: SelectionView) -> Result<
    Seq<char>,
    ErrorView,
> {
    match evaluation {
        Evaluation::Value(text) => Ok(text@),
        Evaluation::Refused(message) => Err(syntax_failure(message@, selection)),
        Evaluation::Thrown(thrown) => Err(runtime_failure(thrown@, selection)),
    }
}

/// Whether an exchange is one that an interpreter can give: where it
/// failed, the error is a syntax error or a runtime error, with the text of
/// the interpreter behind the fixed words, at the place of the script.
pub open spec fn interpreted(exchange: Exchange) -> bool {
    exchange.outcome matches Err(error) ==> exists|refused: bool, text: Seq<char>|
        error == #[trigger] failure(refused, text, exchange.selection)
}

/// Whether each of the exchanges is one that an interpreter can give.
pub open spec fn all_interpreted(exchanges: Seq<Exchange>) -> bool {
    forall|i: int| 0 <= i < exchanges.len() ==> interpreted(#[trigger] exchanges[i])
}

/// What the engine makes of the answer of the interpreter to a script.
pub fn judge(evaluation: Evaluation, script: &Script) -> (result: Result<String, Error>)
    ensures
        crate::script_engine::outcome_of(result) == outcome_for(evaluation, script.selection@),
        interpreted(exchange_of(script, result)),
{
    match evaluation {
        Evaluation::Value(text) => Ok(text),
        Evaluation::Refused(refusal) => {
            let mut message = "ParsingError: ".to_owned();
            message.append(refusal.as_str());
            let error = Error {
                kind: ErrorKind::Syntax,
                message,
                selection: script.selection.clone(),
            };
            assert(error@ == failure(true, refusal@, script.selection@));
            Err(error)
        },
        Evaluation::Thrown(thrown) => {
            let mut message = "Error executing expression: ".to_owned();
            message.append(thrown.as_str());
            let error = Error {
                kind: ErrorKind::Runtime,
                message,
                selection: script.selection.clone(),
            };
            assert(error@ == failure(false, thrown@, script.selection@));
            Err(error)
        },
    }
}

/// One interpreter, and what it has been handed since it was made.
pub struct Session<I: Interpreter> {
    interpreter: I,
    seen: Ghost<Seq<Exchange>>,
}

impl<I: Interpreter> Session<I> {
    /// What the interpreter has evaluated since it was made, oldest first.
    pub closed spec fn seen(&self) -> Seq<Exchange> {
        self.seen@
    }

    /// A session with a new interpreter of the given kind.
    pub fn open(kind: &I) -> (session: Session<I>)
        ensures
            session.seen() == Seq::<Exchange>::empty(),
    {
        Session { interpreter: kind.fresh(), seen: Ghost(Seq::empty()) }
    }
}

impl<I: Interpreter> Scope for Session<I> {
    open spec fn trail(&self) -> Seq<Exchange> {
        self.seen()
    }

    /// A session is never reset: a reset makes a new one.
    open spec fn resets(&self) -> Seq<Result<(), ErrorView>> {
        Seq::empty()
    }

    open spec fn gives(exchange: Exchange) -> bool {
        interpreted(exchange)
    }

    /// Hands a script to the interpreter. What it refuses gives a syntax
    /// error with its message; what it throws gives a runtime error with
    /// the text of what was thrown.
    fn execute_script(&mut self, script: &Script) -> (result: Result<String, Error>)
        ensures
            interpreted(exchange_of(script, result)),
    {
        let evaluation = self.interpreter.evaluate(script.src);
        let result = judge(evaluation, script);
        proof {
            self.seen@ = self.seen@.push(exchange_of(script, result));
        }
        result
    }
}

} // verus!
