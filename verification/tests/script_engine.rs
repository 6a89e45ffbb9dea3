use dot_http::script_engine::engine::{create_script_engine, Engine};
use dot_http::script_engine::{inject, ErrorKind, Scope, Script, ScriptEngine};
use dot_http::{Response, Version};
use dot_http::script_engine::session::{Evaluation, Interpreter};
/// The Boa interpreter, as the engine asks for one.
struct Boa(boa::exec::Interpreter);

impl Boa {
    fn new() -> Boa {
        Boa(boa::exec::Executor::new(boa::realm::Realm::create()))
    }
}

impl Interpreter for Boa {
    fn fresh(&self) -> Boa {
        Boa::new()
    }

    fn evaluate(&mut self, src: &str) -> Evaluation {
        let mut lexer = boa::syntax::lexer::Lexer::new(src);
        if let Err(refusal) = lexer.lex() {
            return Evaluation::Refused(refusal.to_string());
        }
        let node = match boa::syntax::parser::Parser::new(&lexer.tokens).parse_all() {
            Ok(node) => node,
            Err(refusal) => return Evaluation::Refused(refusal.to_string()),
        };
        match boa::exec::Executor::run(&mut self.0, &node) {
            Ok(value) => Evaluation::Value(value.to_string()),
            Err(thrown) => Evaluation::Thrown(thrown.to_string()),
        }
    }
}


fn setup(src: &'static str) -> Engine<Boa> {
    create_script_engine(Boa::new(), "{}", "dev", src).unwrap()
}

#[test]
fn tests_test_syntax_error() {
    let mut engine = setup("{}");

    let result = engine.execute_script(&Script::internal_script("..test"));

    assert!(
        result.is_err(),
        "Should've been an error, but instead got:\n {:#?}",
        result
    );
    if let Err(error) = result {
        assert!(
            error.message.to_lowercase().contains("token"),
            "Should've been a lexer error, but instead got:\n {:#?}",
            error
        );
    }
}

#[test]
fn tests_test_parse_error() {
    let mut engine = setup("{}");

    let result = engine.execute_script(&Script::internal_script(".test"));

    assert!(
        result.is_err(),
        "Should've been an error, but instead got:\n {:#?}",
        result
    );
    if let Err(error) = result {
        // Different engine return different errors, checking both
        assert!(
            error.message.contains("ParsingError") || error.message.contains("SyntaxError"),
            "Should've been a parsing error, but instead got:\n {:#?}",
            error
        );
    }
}

#[test]
#[should_panic]
fn tests_test_initialize_error() {
    let _engine = create_script_engine(Boa::new(), "invalid", "dev", "{}").unwrap();
}

#[test]
fn tests_test_initialize() {
    let mut engine = create_script_engine(Boa::new(), r#"{"dev": {"a": 1}}"#, "dev", "{}").unwrap();

    let result = engine.execute_script(&Script::internal_script("a"));

    assert!(result.is_ok());

    if let Ok(result_value) = result {
        assert!(result_value == "1");
    }
}

#[test]
fn tests_test_reset() {
    let mut engine = create_script_engine(Boa::new(), r#"{"dev": {"a": 1}}"#, "dev", "{}").unwrap();
    engine
        .execute_script(&Script::internal_script(
            r#"client.global.set("test", "test_value")"#,
        ))
        .unwrap();

    engine.reset().unwrap();

    let result = engine.execute_script(&Script::internal_script("test"));

    assert!(result.is_ok());

    if let Ok(result_value) = result {
        assert_eq!(result_value, "test_value");
    }
}

#[test]
fn tests_test_headers_available_in_response() {
    let mut engine = create_script_engine(Boa::new(), "{}", "dev", "{}").unwrap();

    let headers = vec![("X-Auth-Token".to_string(), "SomeTokenValue".to_string())];

    let response = Response {
        version: Version::Http09,
        headers,
        body: Some("{}".to_string()),
        status_code: 0,
        status: "".to_string(),
    };

    inject(&mut engine, &response).unwrap();

    let result = engine
        .execute_script(&Script::internal_script("response.headers['X-Auth-Token']"))
        .unwrap();

    assert_eq!("SomeTokenValue", result);
}

#[test]
fn test_headers_for_script_response() {
    let mut engine = create_script_engine(Boa::new(), "{}", "dev", "{}").unwrap();
    let response = Response {
        version: Version::Http11,
        status_code: 0,
        status: "".to_string(),
        headers: vec![(
            String::from("Content-Type"),
            String::from("application/json"),
        )],
        body: Some("".to_string()),
    };

    inject(&mut engine, &response).unwrap();

    assert_eq!(
        engine
            .execute_script(&Script::internal_script("response.headers['Content-Type']"))
            .unwrap(),
        "application/json"
    )
}

#[test]
fn runtime_errors_are_told_from_syntax_errors() {
    let mut engine = setup("{}");

    let thrown = engine
        .execute_script(&Script::internal_script("missing()"))
        .unwrap_err();
    assert_eq!(thrown.kind, ErrorKind::Runtime);
    assert!(thrown.message.starts_with("Error executing expression: "));

    let refused = engine
        .execute_script(&Script::internal_script(".test"))
        .unwrap_err();
    assert_eq!(refused.kind, ErrorKind::Syntax);
    assert!(refused.message.starts_with("ParsingError: "));
}

#[test]
fn snapshot_is_the_store_as_json() {
    let mut engine =
        create_script_engine(Boa::new(), "{}", "dev", r#"{"kept": {"a": 1}}"#).unwrap();
    assert_eq!(engine.snapshot().unwrap(), r#"{"kept":{"a":1}}"#);
    engine
        .execute_script(&Script::internal_script("client.global.set('n', 3)"))
        .unwrap();
    assert_eq!(engine.snapshot().unwrap(), r#"{"kept":{"a":1},"n":3}"#);
    assert_eq!(
        engine
            .execute_script(&Script::internal_script("client.global.get('n')"))
            .unwrap(),
        "3"
    );
}

#[test]
fn snapshot_that_is_no_object_is_refused() {
    let error = match create_script_engine(Boa::new(), "{}", "dev", "[1]") {
        Ok(_) => panic!("an array is no snapshot"),
        Err(error) => error,
    };
    assert_eq!(error.kind, ErrorKind::Declaration);
    assert_eq!(error.message, "Failed to declare object: [1]");

    let error = match create_script_engine(Boa::new(), "{}", "dev", "{") {
        Ok(_) => panic!("half an object is no snapshot"),
        Err(error) => error,
    };
    assert_eq!(error.kind, ErrorKind::Initialization);
}

#[test]
fn environment_of_another_name_declares_nothing() {
    let mut engine = create_script_engine(Boa::new(), r#"{"prod": {"a": 1}}"#, "dev", "{}").unwrap();
    assert_eq!(
        engine
            .execute_script(&Script::internal_script("typeof this.a"))
            .unwrap(),
        "undefined"
    );
    assert_eq!(
        engine
            .execute_script(&Script::internal_script("typeof this._env_file"))
            .unwrap(),
        "undefined"
    );
}

#[test]
fn environment_is_kept_whole() {
    let mut engine =
        create_script_engine(Boa::new(), r#"{"dev": {"a": {"b": "c"}}, "prod": {}}"#, "dev", "{}").unwrap();
    assert_eq!(
        engine
            .execute_script(&Script::internal_script("a.b + _env.a.b + typeof _env_file.prod"))
            .unwrap(),
        "ccobject"
    );
}
