use dot_http::controller::{is_valid_line_number, Error, ErrorKind, Unreadable};
use dot_http::model::{Processed, Selection, Value};
use dot_http::output::{DefaultOutputter, Outputter, QuietOutputter};
use dot_http::parser::parse;
use dot_http::process::Processable;
use dot_http::runtime::Runtime;
use dot_http::script_engine::engine::{
    bootstrap_batch, create_script_engine, environment_sources, snapshot_sources,
};
use dot_http::script_engine::json::Json;
use dot_http::script_engine::{Batch, Source};
use dot_http::select::NotFound;
use dot_http::{process, ClientConfig, Method, Request, Response, Version};
use dot_http::script_engine::session::{Evaluation, Interpreter};
/// The Boa interpreter, as the engine asks for one.
struct Boa(boa::exec::Interpreter);

impl Boa {
    fn new() -> Boa {
        Boa(boa::exec::Executor::new(boa::realm::Realm::create()))
    }
}

impl Interpreter for Boa {
    fn fresh(&self) -> Boa {
        Boa::new()
    }

    fn evaluate(&mut self, src: &str) -> Evaluation {
        let mut lexer = boa::syntax::lexer::Lexer::new(src);
        if let Err(refusal) = lexer.lex() {
            return Evaluation::Refused(refusal.to_string());
        }
        let node = match boa::syntax::parser::Parser::new(&lexer.tokens).parse_all() {
            Ok(node) => node,
            Err(refusal) => return Evaluation::Refused(refusal.to_string()),
        };
        match boa::exec::Executor::run(&mut self.0, &node) {
            Ok(value) => Evaluation::Value(value.to_string()),
            Err(thrown) => Evaluation::Thrown(thrown.to_string()),
        }
    }
}


fn unreadable() -> Unreadable {
    Unreadable {
        filename: "some.file".to_string(),
        cause: "permission denied".to_string(),
    }
}

#[test]
fn what_ends_a_run_is_told() {
    let message = |kind: ErrorKind| Error { kind }.message();
    assert_eq!(
        message(ErrorKind::ReadEnvFile(unreadable())),
        "Could not read environment file - some.file: permission denied"
    );
    assert_eq!(
        message(ErrorKind::ReadSnapshotFile(unreadable())),
        "Could not read the snapshot file - some.file: permission denied"
    );
    assert_eq!(
        message(ErrorKind::ReadRequestScriptFile(unreadable())),
        "some.file: permission denied"
    );
    assert_eq!(
        message(ErrorKind::ParseRequestScript(
            parse("dir/a.http".to_string(), "\nGET ").unwrap_err()
        )),
        "dir/a.http:2:5: expected the target of the request"
    );
    assert_eq!(
        message(ErrorKind::ScriptEngineError(
            "a.http".to_string(),
            match create_script_engine(Boa::new(), "{}", "dev", "[") {
                Ok(_) => panic!("no snapshot"),
                Err(error) => dot_http::script_engine::Error {
                    message: "no JSON".to_string(),
                    ..error
                },
            }
        )),
        "a.http: no JSON"
    );
    assert_eq!(
        message(ErrorKind::ScriptEngineError(
            "a.http".to_string(),
            dot_http::script_engine::Error {
                kind: dot_http::script_engine::ErrorKind::Runtime,
                message: "Error executing expression: x".to_string(),
                selection: Selection {
                    filename: "a.http".to_string(),
                    start: dot_http::model::Position { line: 7, col: 13 },
                    end: dot_http::model::Position { line: 7, col: 20 },
                },
            }
        )),
        "a.http:7:13: Error executing expression: x"
    );
    assert_eq!(
        message(ErrorKind::RequestNotFound(NotFound { offset: 7 })),
        "no request found at line 7"
    );
    assert_eq!(
        message(ErrorKind::HttpClient("connection refused".to_string())),
        "connection refused"
    );
    assert_eq!(
        message(ErrorKind::InvalidFormat(
            dot_http::output::parse_format("%z").unwrap_err()
        )),
        "Invalid formatting character 'z'"
    );
    assert_eq!(
        message(ErrorKind::WriteOutput("broken pipe".to_string())),
        "broken pipe"
    );
    assert_eq!(
        message(ErrorKind::WriteSnapshotFile(unreadable())),
        "Could not write the snapshot file - some.file: permission denied"
    );
}

#[test]
fn line_numbers_are_positive() {
    for valid in ["1", "9", "10", "+5", "007", "2147483647", "+0002147483647"] {
        assert_eq!(is_valid_line_number(valid), Ok(()), "{}", valid);
    }
    for invalid in [
        "", "+", "0", "+0", "000", "-1", "-0", "2147483648", "99999999999999999999999", "1 ",
        " 1", "1.0", "one", "1e3", "++1", "\u{661}",
    ] {
        assert_eq!(
            is_valid_line_number(invalid),
            Err("Line number is not a valid integer".to_string()),
            "{}",
            invalid
        );
    }
}

#[test]
fn certificates_are_checked_unless_asked_otherwise() {
    assert!(ClientConfig::default().ssl_check);
    assert!(ClientConfig::new(true).ssl_check);
    assert!(!ClientConfig::new(false).ssl_check);
}

#[test]
fn a_new_scope_is_made_by_these_scripts() {
    let internal = |src: &str| Source {
        src: src.to_string(),
        selection: Selection::none(),
    };
    let init = "var client = { global: { set: function (key, value) { _snapshot[key] = value; }, get: function (key) { return _snapshot[key]; } } };";
    assert_eq!(
        bootstrap_batch(
            " {\"prod\": {}, \"dev\": {\"b\": [1, \"two\"], \"a\": {\"x\": null}}} ",
            "dev",
            "{ \"token\" : \"abc\" }"
        ),
        Batch {
            scripts: vec![
                internal("this['a'] = {\"x\":null};"),
                internal("this['b'] = [1,\"two\"];"),
                internal(
                    "var _env_file =  {\"prod\": {}, \"dev\": {\"b\": [1, \"two\"], \"a\": {\"x\": null}}} ;\nvar _env = _env_file['dev'];"
                ),
                internal("this['token'] = \"abc\";"),
                internal("var _snapshot = {\"token\":\"abc\"};"),
                internal(init),
            ],
            failure: None,
        }
    );
    assert_eq!(
        bootstrap_batch("[]", "dev", "{}"),
        Batch {
            scripts: vec![internal("var _snapshot = {};"), internal(init)],
            failure: None,
        }
    );

    let refused = bootstrap_batch("{\"dev\": 1}", "dev", "{}");
    assert!(refused.scripts.is_empty());
    assert_eq!(
        refused.failure.unwrap().message,
        "Failed to declare object: 1"
    );

    let refused = bootstrap_batch("{\"dev\": {\"a\": 1}}", "dev", "nothing");
    assert_eq!(refused.scripts.len(), 2);
    assert_eq!(
        refused.failure.unwrap().kind,
        dot_http::script_engine::ErrorKind::Initialization
    );

    let refused = bootstrap_batch("{\"dev\": ", "dev", "nothing");
    assert!(refused.scripts.is_empty());
    assert!(refused
        .failure
        .unwrap()
        .message
        .starts_with("EOF while parsing"));
}

#[test]
fn what_environment_and_snapshot_put_into_a_scope() {
    let internal = |src: &str| Source {
        src: src.to_string(),
        selection: Selection::none(),
    };
    let environment = Json::Object {
        text: "{\"dev\":{\"a\":1},\"dev\":{\"b\":2}}".to_string(),
        members: vec![
            ("prod".to_string(), "{\"z\":0}".to_string()),
            ("dev".to_string(), "{\"a\":1}".to_string()),
            ("dev".to_string(), "{\"b\":2}".to_string()),
        ],
    };
    assert_eq!(
        environment_sources(&environment, "<file>", "dev"),
        Batch {
            scripts: vec![
                internal("this['a'] = 1;"),
                internal("var _env_file = <file>;\nvar _env = _env_file['dev'];"),
            ],
            failure: None,
        }
    );
    assert_eq!(
        environment_sources(&environment, "<file>", "test"),
        Batch {
            scripts: vec![],
            failure: None
        }
    );
    assert_eq!(
        environment_sources(
            &Json::Other {
                text: "[]".to_string()
            },
            "[]",
            "dev"
        ),
        Batch {
            scripts: vec![],
            failure: None
        }
    );

    assert_eq!(
        snapshot_sources(&Json::Object {
            text: "<snapshot>".to_string(),
            members: vec![("k".to_string(), "\"v\"".to_string())],
        })
        .scripts
        .iter()
        .map(|source| source.src.as_str())
        .take(2)
        .collect::<Vec<_>>(),
        vec!["this['k'] = \"v\";", "var _snapshot = <snapshot>;"]
    );
    assert_eq!(
        snapshot_sources(&Json::Invalid {
            message: "no JSON".to_string()
        }),
        Batch {
            scripts: vec![],
            failure: Some(dot_http::script_engine::Error {
                kind: dot_http::script_engine::ErrorKind::Initialization,
                message: "no JSON".to_string(),
                selection: Selection::none(),
            }),
        }
    );
    assert_eq!(
        snapshot_sources(&Json::Other {
            text: "7".to_string()
        })
        .failure
        .unwrap()
        .message,
        "Failed to declare object: 7"
    );
}

#[test]
fn a_request_is_resolved_target_first_then_headers_then_body() {
    let source = "\
POST http://{{ next() }}/{{ next() }}
A: {{ next() }}
B: plain
C: {{ next() }}{{ next() }}

{{ next() }}
";
    let file = parse(String::new(), source).unwrap();
    let mut engine = create_script_engine(Boa::new(), "{}", "dev", "{}").unwrap();
    dot_http::script_engine::run_batch(
        &mut engine,
        &Batch {
            scripts: vec![Source {
                src: "var n = 0; function next() { n = n + 1; return n; }".to_string(),
                selection: Selection::none(),
            }],
            failure: None,
        },
    )
    .unwrap();

    let request = process(&mut engine, &file.request_scripts[0].request).unwrap();
    assert_eq!(
        request,
        Request {
            method: Method::Post,
            target: "http://1/2".to_string(),
            headers: vec![
                ("A".to_string(), "3".to_string()),
                ("B".to_string(), "plain".to_string()),
                ("C".to_string(), "45".to_string()),
            ],
            body: Some("6".to_string()),
        }
    );

    let script = file.request_scripts[0].process(&mut engine).unwrap();
    assert_eq!(
        script.request.target,
        Value {
            state: Processed {
                value: "http://7/8".to_string()
            }
        }
    );
    assert_eq!(script.request.headers[2].field_value.state.value, "1011");
    assert_eq!(script.request.body.unwrap().state.value, "12");
    assert_eq!(script.selection, file.request_scripts[0].selection);

    let header = file.request_scripts[0].request.headers[0]
        .process(&mut engine)
        .unwrap();
    assert_eq!(header.field_name, "A");
    assert_eq!(header.field_value.state.value, "13");
    let value = file.request_scripts[0].request.target.process(&mut engine).unwrap();
    assert_eq!(value.state.value, "http://14/15");
}

#[test]
fn a_run_needs_a_request_to_begin_with() {
    let file = parse(String::new(), "GET http://a\n").unwrap();
    let engine = create_script_engine(Boa::new(), "{}", "dev", "{}").unwrap();
    assert_eq!(
        Runtime::new(engine, &file, 9, false).err(),
        Some(NotFound { offset: 9 })
    );
}

#[test]
fn the_plain_outputters() {
    let request = Request {
        method: Method::Put,
        target: "http://a/b".to_string(),
        headers: vec![("a".to_string(), "b".to_string())],
        body: Some("{}".to_string()),
    };
    let response = Response {
        version: Version::Http10,
        status_code: 201,
        status: "201 Created".to_string(),
        headers: vec![
            ("a".to_string(), "b".to_string()),
            ("c".to_string(), "d".to_string()),
        ],
        body: Some("{\"id\":1}".to_string()),
    };
    let outputter = DefaultOutputter::default();
    assert_eq!(outputter.output_request(&request), "PUT http://a/b\n\n");
    assert_eq!(
        outputter.output_response(&response),
        "HTTP/1.0 201 Created\na: b\nc: d\n\n{\n  \"id\": 1\n}\n"
    );
    assert_eq!(QuietOutputter::default().output_request(&request), "");
    assert_eq!(QuietOutputter::default().output_response(&response), "");
}
