use dot_http::script_engine::engine::Engine;
use dot_http::script_engine::{Scope, Script};
use dot_http::script_engine::session::{Evaluation, Interpreter};
/// The Boa interpreter, as the engine asks for one.
struct Boa(boa::exec::Interpreter);

impl Boa {
    fn new() -> Boa {
        Boa(boa::exec::Executor::new(boa::realm::Realm::create()))
    }
}

impl Interpreter for Boa {
    fn fresh(&self) -> Boa {
        Boa::new()
    }

    fn evaluate(&mut self, src: &str) -> Evaluation {
        let mut lexer = boa::syntax::lexer::Lexer::new(src);
        if let Err(refusal) = lexer.lex() {
            return Evaluation::Refused(refusal.to_string());
        }
        let node = match boa::syntax::parser::Parser::new(&lexer.tokens).parse_all() {
            Ok(node) => node,
            Err(refusal) => return Evaluation::Refused(refusal.to_string()),
        };
        match boa::exec::Executor::run(&mut self.0, &node) {
            Ok(value) => Evaluation::Value(value.to_string()),
            Err(thrown) => Evaluation::Thrown(thrown.to_string()),
        }
    }
}


fn setup(src: &'static str) -> Engine<Boa> {
    Engine::new(Boa::new(), "{}", "dev", src).unwrap()
}

#[test]
fn test_syntax_error() {
    let mut engine = setup("{}");

    let result = engine.execute_script(&Script::internal_script("..test"));

    assert!(
        result.is_err(),
        "Should've been an error, but instead got:\n {:#?}",
        result
    );
    if let Err(error) = result {
        assert!(
            error.message.to_lowercase().contains("token"),
            "Should've been a lexer error, but instead got:\n {:#?}",
            error
        );
    }
}

#[test]
fn test_parse_error() {
    let mut engine = setup("{}");

    let result = engine.execute_script(&Script::internal_script(".test"));

    assert!(
        result.is_err(),
        "Should've been an error, but instead got:\n {:#?}",
        result
    );
    if let Err(error) = result {
        // Different engine return different errors, checking both
        assert!(
            error.message.contains("ParsingError") || error.message.contains("SyntaxError"),
            "Should've been a parsing error, but instead got:\n {:#?}",
            error
        );
    }
}
