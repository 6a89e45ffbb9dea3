use dot_http::client::{HttpClient, Sender};
use dot_http::output::{parse_format, FormattedOutputter};
use dot_http::parser::parse;
use dot_http::runtime::Runtime;
use dot_http::script_engine::engine::create_script_engine;
use dot_http::script_engine::session::{Evaluation, Interpreter};
use dot_http::{Method, Request, Response, Version};

const PORT: u16 = 8080;

/// The Boa interpreter, as the engine asks for one.
struct Boa(boa::exec::Interpreter);

impl Boa {
    fn new() -> Boa {
        Boa(boa::exec::Executor::new(boa::realm::Realm::create()))
    }
}

impl Interpreter for Boa {
    fn fresh(&self) -> Boa {
        Boa::new()
    }

    fn evaluate(&mut self, src: &str) -> Evaluation {
        let mut lexer = boa::syntax::lexer::Lexer::new(src);
        if let Err(refusal) = lexer.lex() {
            return Evaluation::Refused(refusal.to_string());
        }
        let node = match boa::syntax::parser::Parser::new(&lexer.tokens).parse_all() {
            Ok(node) => node,
            Err(refusal) => return Evaluation::Refused(refusal.to_string()),
        };
        match boa::exec::Executor::run(&mut self.0, &node) {
            Ok(value) => Evaluation::Value(value.to_string()),
            Err(thrown) => Evaluation::Thrown(thrown.to_string()),
        }
    }
}

/// One answer of the server of these tests.
struct Mock {
    method: Method,
    path: &'static str,
    status_code: u16,
    status: &'static str,
    body: Option<&'static str>,
}

/// The server of these tests, and what a run writes while it talks to it.
struct Server {
    mocks: Vec<Mock>,
    outputter: FormattedOutputter,
    written: String,
}

impl HttpClient for Server {
    fn execute(&mut self, request: &Request) -> Result<Response, String> {
        self.written.push_str(&self.outputter.request(request));
        let prefix = format!("http://localhost:{}", PORT);
        let path = request
            .target
            .strip_prefix(&prefix)
            .ok_or_else(|| format!("no server at {}", request.target))?;
        let mock = self
            .mocks
            .iter()
            .find(|mock| mock.method == request.method && mock.path == path)
            .ok_or_else(|| format!("nothing is served at {}", path))?;
        let mut headers = vec![("date".to_string(), "".to_string())];
        if mock.status_code != 204 {
            let length = mock.body.map_or(0, |body| body.len());
            headers.push(("content-length".to_string(), length.to_string()));
        }
        let response = Response {
            version: Version::Http11,
            status_code: mock.status_code,
            status: mock.status.to_string(),
            headers,
            body: mock.body.map(|body| body.to_string()),
        };
        self.written.push_str(&self.outputter.response(&response));
        Ok(response)
    }
}

/// Runs a request file against the server and hands out what was written.
fn run(mocks: Vec<Mock>, env_file: &str, script: &str, offset: usize, all: bool) -> String {
    let script_file = format!("{}\n", script);
    let file = parse("script.http".to_string(), &script_file).unwrap();
    let engine = create_script_engine(Boa::new(), &format!("{}\n", env_file), "dev", "{}\n").unwrap();
    let mut runtime = Runtime::new(engine, &file, offset, all).unwrap();
    let mut sender = Sender::new(Server {
        mocks,
        outputter: FormattedOutputter::new(
            parse_format("%R\n").unwrap(),
            parse_format("%R\n%H\n%B\n").unwrap(),
        ),
        written: String::new(),
    });
    runtime.execute(&mut sender).unwrap();
    sender.into_client().written
}

#[test]
fn simple_simple_get() {
    let buf = run(
        vec![Mock {
            method: Method::Get,
            path: "/simple_get/30",
            status_code: 200,
            status: "200 OK",
            body: None,
        }],
        r#"{"dev": {"id": 30}}"#,
        &format!(
            "GET http://localhost:{port}/simple_get/{{{{id}}}}",
            port = PORT
        ),
        1,
        false,
    );

    assert_eq!(
        buf,
        format!(
            "\
GET http://localhost:{}/simple_get/30
HTTP/1.1 200 OK
date: \n\
content-length: 0\
\n\n\n",
            PORT
        )
    );
}

#[test]
fn simple_simple_post() {
    let buf = run(
        vec![Mock {
            method: Method::Post,
            path: "/simple_post",
            status_code: 200,
            status: "200 OK",
            body: Some(r#"{"value": true}"#),
        }],
        "{}",
        &format!(
            "\
POST http://localhost:{port}/simple_post

{{
    \"test\": \"body\"
}}\
        ",
            port = PORT,
        ),
        1,
        false,
    );

    assert_eq!(
        buf,
        format!(
            "\
POST http://localhost:{port}/simple_post
HTTP/1.1 200 OK
date: \n\
content-length: 15\
\n\n\
{{
  \"value\": true
}}\n\
            ",
            port = PORT
        )
    );
}

#[test]
fn multi_post() {
    let buf = run(
        vec![
            Mock {
                method: Method::Post,
                path: "/multi_post_first",
                status_code: 200,
                status: "200 OK",
                body: Some(r#"{"value": true}"#),
            },
            Mock {
                method: Method::Get,
                path: "/multi_get_second",
                status_code: 200,
                status: "200 OK",
                body: Some(r#"{"value": false}"#),
            },
            Mock {
                method: Method::Get,
                path: "/multi_get_third",
                status_code: 204,
                status: "204 No Content",
                body: None,
            },
        ],
        "{}",
        &format!(
            "\
POST http://localhost:{port}/multi_post_first

{{
    \"test\": \"body\"
}}

###

GET http://localhost:{port}/multi_get_second
###
GET http://localhost:{port}/multi_get_third\
        ",
            port = PORT,
        ),
        1,
        true,
    );

    assert_eq!(
        buf,
        format!(
            "\
POST http://localhost:{port}/multi_post_first
HTTP/1.1 200 OK
date: \n\
content-length: 15\
\n\n\
{{
  \"value\": true
}}
GET http://localhost:{port}/multi_get_second
HTTP/1.1 200 OK
date: \n\
content-length: 16\
\n\n\
{{
  \"value\": false
}}
GET http://localhost:{port}/multi_get_third
HTTP/1.1 204 No Content
date: \n\
\n\n",
            port = PORT
        )
    );
}

#[test]
fn dot_http_test() {
    // Nothing is served at the root: the answer is an answer all the same.
    let buf = run(
        vec![Mock {
            method: Method::Post,
            path: "",
            status_code: 404,
            status: "404 Not Found",
            body: None,
        }],
        "{}",
        &format!("POST http://localhost:{port} HTTP/1.1", port = PORT),
        1,
        false,
    );

    assert_eq!(
        buf,
        format!(
            "POST http://localhost:{port}\nHTTP/1.1 404 Not Found\ndate: \ncontent-length: 0\n\n\n",
            port = PORT
        )
    );
}
